//! Serialization into a fixed-capacity buffer of `CAP` bytes held inline.
use vstd::prelude::*;
use crate::error::{Result, SerDesError};
use crate::utils::numerics::digits::{be_digits, le_digits};
use crate::utils::numerics::width::FixedWidth;
use crate::utils::numerics::be_bytes::ToBeBytes;
use crate::utils::numerics::le_bytes::ToLeBytes;
use crate::utils::numerics::ne_bytes::{ne_digits, ToNeBytes};
use crate::utils::hex::{hex_line, hex_pretty, to_hex_line, to_hex_pretty};
use crate::utils::text::{decimal, push_decimal, push_str};

verus! {

/// The bytes that a value occupies once serialized: shared by the stack and
/// the heap serializers, so both write the same image of a value.
pub trait ByteSerialized {
    /// The serialized image of the value.
    spec fn byte_image(&self) -> Seq<u8>;
}

/// A stack buffer of capacity `cap` holding `written`, described as text.
pub open spec fn stack_lower_hex(cap: nat, written: Seq<u8>, alternate: bool) -> Seq<char> {
    "ByteSerializerStack<"@ + decimal(cap) + "> { len: "@ + decimal(written.len()) + ", cap: "@ + decimal(cap)
        + ", bytes: "@ + (if alternate {
        "\n"@ + hex_pretty(written)
    } else {
        hex_line(written)
    }) + " }"@
}

/// The message of a failure to append `n` bytes to a stack buffer.
pub open spec fn add_failure(n: nat, cap: nat, written: Seq<u8>) -> Seq<char> {
    "Failed to add a slice size: "@ + decimal(n) + " into "@ + stack_lower_hex(cap, written, false)
}

/// Values that can be appended to a [ByteSerializerStack].
pub trait ByteSerializeStack: ByteSerialized {
    /// The message with which appending the value fails, on a buffer of
    /// capacity `cap` that already holds `written`.
    spec fn byte_stack_error(&self, written: Seq<u8>, cap: nat) -> Seq<char>;

    /// Appends the image of the value. Succeeds exactly when the image fits in
    /// the space left; on failure a prefix of the image may have been written.
    /// Bytes of the buffer past the written ones are never touched.
    fn byte_serialize_stack<const CAP: usize>(&self, ser: &mut ByteSerializerStack<CAP>) -> (r: Result<()>)
        ensures
            r is Ok <==> old(ser)@.len() + self.byte_image().len() <= CAP,
            r is Ok ==> final(ser)@ == old(ser)@ + self.byte_image(),
            r is Err ==> old(ser)@.is_prefix_of(final(ser)@) && final(ser)@.is_prefix_of(old(ser)@ + self.byte_image()),
            r matches Err(e) ==> e.message@ == self.byte_stack_error(old(ser)@, CAP as nat),
            final(ser).buffer().skip(final(ser)@.len() as int) == old(ser).buffer().skip(final(ser)@.len() as int),
    ;
}

/// A byte buffer of `CAP` bytes held inline, filled from the front. It can be
/// reused by calling [Self::clear()].
#[derive(Debug)]
pub struct ByteSerializerStack<const CAP: usize> {
    bytes: [u8; CAP],
    len: usize,
}

impl<const CAP: usize> View for ByteSerializerStack<CAP> {
    type V = Seq<u8>;

    /// The bytes written so far.
    closed spec fn view(&self) -> Seq<u8> {
        self.bytes@.take(self.len as int)
    }
}

impl<const CAP: usize> Clone for ByteSerializerStack<CAP> {
    /// A copy of the buffer, written bytes and the rest alike.
    fn clone(&self) -> (r: Self)
        ensures
            r@ == self@,
            r.buffer() == self.buffer(),
    {
        proof {
            use_type_invariant(self);
        }
        ByteSerializerStack { bytes: self.bytes, len: self.len }
    }
}

impl<const CAP: usize> Default for ByteSerializerStack<CAP> {
    /// An empty buffer whose bytes are all zero.
    fn default() -> (r: Self)
        ensures
            r@ == Seq::<u8>::empty(),
            r.buffer() == Seq::new(CAP as nat, |i: int| 0u8),
    {
        let r = ByteSerializerStack { bytes: vstd::array::array_fill_for_copy_types::<u8, CAP>(0u8), len: 0 };
        assert(r.bytes@ =~= Seq::new(CAP as nat, |i: int| 0u8));
        r
    }
}

impl<const CAP: usize> ByteSerializerStack<CAP> {
    #[verifier::type_invariant]
    closed spec fn well_formed(self) -> bool {
        self.len <= CAP
    }

    /// All `CAP` bytes of the buffer, those written and those not yet written.
    pub closed spec fn buffer(&self) -> Seq<u8> {
        self.bytes@
    }

    /// Empties the buffer: the next write starts at its front. The bytes
    /// themselves are left as they are.
    pub fn clear(&mut self)
        ensures
            final(self)@ == Seq::<u8>::empty(),
            final(self).buffer() == old(self).buffer(),
    {
        self.len = 0;
    }

    /// Empties the buffer, as [Self::clear()] does.
    pub fn reset(&mut self)
        ensures
            final(self)@ == Seq::<u8>::empty(),
            final(self).buffer() == old(self).buffer(),
    {
        self.clear();
    }

    /// The number of bytes written.
    pub fn len(&self) -> (r: usize)
        ensures
            r == self@.len(),
            r <= CAP,
            self.buffer().len() == CAP,
            self@ == self.buffer().take(r as int),
    {
        proof {
            use_type_invariant(self);
        }
        self.len
    }

    /// Whether nothing has been written.
    pub fn is_empty(&self) -> (r: bool)
        ensures
            r == (self@.len() == 0),
    {
        proof {
            use_type_invariant(self);
        }
        self.len == 0
    }

    /// The capacity of the buffer, `CAP`.
    pub fn capacity(&self) -> (r: usize)
        ensures
            r == CAP,
    {
        CAP
    }

    /// The number of bytes that can still be written: [Self::capacity()] - [Self::len()].
    pub fn avail(&self) -> (r: usize)
        ensures
            r == CAP - self@.len(),
    {
        proof {
            use_type_invariant(self);
        }
        CAP - self.len
    }

    /// The bytes written, without the unused rest of the buffer.
    pub fn as_slice(&self) -> (r: &[u8])
        ensures
            r@ == self@,
    {
        proof {
            use_type_invariant(self);
        }
        vstd::slice::slice_subrange(self.bytes.as_slice(), 0, self.len)
    }

    /// The bytes written, as [Self::as_slice()] gives them.
    pub fn bytes(&self) -> (r: &[u8])
        ensures
            r@ == self@,
    {
        self.as_slice()
    }

    /// Appends all of `bytes`, or fails, writing nothing, when they do not fit
    /// in the space left.
    pub fn serialize_bytes_slice(&mut self, bytes: &[u8]) -> (r: Result<&mut Self>)
        ensures
            r is Ok <==> old(self)@.len() + bytes@.len() <= CAP,
            match r {
                Ok(s) => {
                    &&& s@ == old(self)@ + bytes@
                    &&& s.buffer() == old(self).buffer().take(old(self)@.len() as int) + bytes@
                        + old(self).buffer().skip((old(self)@.len() + bytes@.len()) as int)
                    &&& *final(self) == *final(s)
                },
                Err(e) => *final(self) == *old(self) && e.message@ == add_failure(bytes@.len(), CAP as nat, old(self)@),
            },
    {
        proof {
            use_type_invariant(&*self);
        }
        let input_len = bytes.len();
        let avail = self.avail();
        if input_len > avail {
            return Err(self.error(input_len));
        }
        let start = self.len;
        let ghost old_bytes = self.bytes@;
        let mut i: usize = 0;
        while i < input_len
            invariant
                i <= input_len == bytes@.len(),
                start == self.len,
                start + input_len <= CAP,
                old_bytes.len() == CAP,
                self.bytes@ == old_bytes.take(start as int) + bytes@.take(i as int) + old_bytes.skip(start + i),
            decreases input_len - i,
        {
            proof {
                use_type_invariant(&*self);
            }
            self.bytes[start + i] = bytes[i];
            proof {
                assert(bytes@.take(i + 1) =~= bytes@.take(i as int).push(bytes@[i as int]));
                assert(self.bytes@ =~= old_bytes.take(start as int) + bytes@.take(i + 1) + old_bytes.skip(start + i + 1));
            }
            i = i + 1;
        }
        assert(bytes@.take(input_len as int) =~= bytes@);
        self.len = start + input_len;
        assert(self@ =~= old(self)@ + bytes@);
        Ok(self)
    }

    /// The failure to append `n` more bytes.
    fn error(&self, n: usize) -> (e: SerDesError)
        ensures
            e.message@ == add_failure(n as nat, CAP as nat, self@),
    {
        let mut message = String::new();
        push_str(&mut message, "Failed to add a slice size: ");
        push_decimal(&mut message, n as u128);
        push_str(&mut message, " into ");
        push_str(&mut message, self.fmt_lower_hex(false).as_str());
        assert(message@ =~= add_failure(n as nat, CAP as nat, self@));
        SerDesError { message }
    }

    /// The buffer described as text: its capacity, its length and a hex dump
    /// of the bytes written, on one line or, when `alternate`, sixteen bytes
    /// per line.
    pub fn fmt_lower_hex(&self, alternate: bool) -> (r: String)
        ensures
            r@ == stack_lower_hex(CAP as nat, self@, alternate),
    {
        let mut s = String::new();
        push_str(&mut s, "ByteSerializerStack<");
        push_decimal(&mut s, CAP as u128);
        push_str(&mut s, "> { len: ");
        push_decimal(&mut s, self.len() as u128);
        push_str(&mut s, ", cap: ");
        push_decimal(&mut s, CAP as u128);
        push_str(&mut s, ", bytes: ");
        if alternate {
            push_str(&mut s, "\n");
            push_str(&mut s, to_hex_pretty(self.as_slice()).as_str());
        } else {
            push_str(&mut s, to_hex_line(self.as_slice()).as_str());
        }
        push_str(&mut s, " }");
        assert(s@ =~= stack_lower_hex(CAP as nat, self@, alternate));
        s
    }

    /// Appends the native-endian bytes of a numeric.
    pub fn serialize_ne<const N: usize, T: ToNeBytes<N>>(&mut self, v: T) -> (r: Result<&mut Self>)
        ensures
            r is Ok <==> old(self)@.len() + N <= CAP,
            match r {
                Ok(s) => {
                    &&& (s@ == old(self)@ + be_digits(v.bits(), N as nat) || s@ == old(self)@ + le_digits(v.bits(), N as nat))
                    &&& s@ == old(self)@ + ne_digits(v.bits(), N as nat)
                    &&& *final(self) == *final(s)
                },
                Err(_) => *final(self) == *old(self),
            },
    {
        let b: [u8; N] = ToNeBytes::to_bytes(&v);
        self.serialize_bytes_slice(b.as_slice())
    }

    /// Appends the little-endian bytes of a numeric.
    pub fn serialize_le<const N: usize, T: ToLeBytes<N>>(&mut self, v: T) -> (r: Result<&mut Self>)
        ensures
            r is Ok <==> old(self)@.len() + N <= CAP,
            match r {
                Ok(s) => s@ == old(self)@ + le_digits(v.bits(), N as nat) && *final(self) == *final(s),
                Err(_) => *final(self) == *old(self),
            },
    {
        let b: [u8; N] = ToLeBytes::to_bytes(&v);
        self.serialize_bytes_slice(b.as_slice())
    }

    /// Appends the big-endian bytes of a numeric.
    pub fn serialize_be<const N: usize, T: ToBeBytes<N>>(&mut self, v: T) -> (r: Result<&mut Self>)
        ensures
            r is Ok <==> old(self)@.len() + N <= CAP,
            match r {
                Ok(s) => s@ == old(self)@ + be_digits(v.bits(), N as nat) && *final(self) == *final(s),
                Err(_) => *final(self) == *old(self),
            },
    {
        let b: [u8; N] = ToBeBytes::to_bytes(&v);
        self.serialize_bytes_slice(b.as_slice())
    }

    /// Appends the image of a value that implements [ByteSerializeStack].
    pub fn serialize<T: ByteSerializeStack>(&mut self, v: &T) -> (r: Result<&mut Self>)
        ensures
            r is Ok <==> old(self)@.len() + v.byte_image().len() <= CAP,
            match r {
                Ok(s) => s@ == old(self)@ + v.byte_image() && *final(self) == *final(s),
                Err(e) => {
                    &&& old(self)@.is_prefix_of(final(self)@)
                    &&& final(self)@.is_prefix_of(old(self)@ + v.byte_image())
                    &&& e.message@ == v.byte_stack_error(old(self)@, CAP as nat)
                },
            },
    {
        match v.byte_serialize_stack(self) {
            Ok(()) => Ok(self),
            Err(e) => Err(e),
        }
    }
}

/// Serializes `v` into a fresh buffer of `CAP` bytes.
pub fn to_serializer_stack<const CAP: usize, T: ByteSerializeStack>(v: &T) -> (r: Result<ByteSerializerStack<CAP>>)
    ensures
        r is Ok <==> v.byte_image().len() <= CAP,
        r matches Ok(s) ==> s@ == v.byte_image() && s.buffer() == v.byte_image() + Seq::new((CAP - v.byte_image().len()) as nat, |i: int| 0u8),
        r matches Err(e) ==> e.message@ == v.byte_stack_error(Seq::empty(), CAP as nat),
{
    let mut ser = ByteSerializerStack::<CAP>::default();
    let ghost zeros = ser.buffer();
    match v.byte_serialize_stack(&mut ser) {
        Ok(()) => {
            let n = ser.len();
            proof {
                let image = v.byte_image();
                assert(zeros.skip(n as int) =~= Seq::new((CAP - n) as nat, |i: int| 0u8));
                assert(ser.buffer() =~= ser.buffer().take(n as int) + ser.buffer().skip(n as int));
                assert(ser.buffer() =~= v.byte_image() + Seq::new((CAP - v.byte_image().len()) as nat, |i: int| 0u8));
            }
            Ok(ser)
        },
        Err(e) => Err(e),
    }
}

/// Serializes `v` into a fresh buffer of `CAP` bytes and hands back all `CAP`
/// bytes of it together with the number of bytes written.
pub fn to_bytes_stack<const CAP: usize, T: ByteSerializeStack>(v: &T) -> (r: Result<([u8; CAP], usize)>)
    ensures
        r is Ok <==> v.byte_image().len() <= CAP,
        r matches Ok((a, n)) ==> n == v.byte_image().len() && a@ == v.byte_image() + Seq::new((CAP - n) as nat, |i: int| 0u8),
        r matches Err(e) ==> e.message@ == v.byte_stack_error(Seq::empty(), CAP as nat),
{
    let ser = match to_serializer_stack::<CAP, T>(v) {
        Ok(s) => s,
        Err(e) => return Err(e),
    };
    let n = ser.len();
    Ok((ser.bytes, n))
}

impl ByteSerialized for bytes::Bytes {
    open spec fn byte_image(&self) -> Seq<u8> {
        crate::buffers::bytes_content(*self)
    }
}

/// A `Bytes` is written as the bytes it holds.
impl ByteSerializeStack for bytes::Bytes {
    open spec fn byte_stack_error(&self, written: Seq<u8>, cap: nat) -> Seq<char> {
        add_failure(self.byte_image().len(), cap, written)
    }

    fn byte_serialize_stack<const CAP: usize>(&self, ser: &mut ByteSerializerStack<CAP>) -> (r: Result<()>) {
        let _ = ser.len();
        match ser.serialize_bytes_slice(crate::buffers::bytes_as_slice(self)) {
            Ok(_) => Ok(()),
            Err(e) => Err(e),
        }
    }
}

/// The bytes of the successful writes of a run, in order; a failed write
/// (`None`) adds nothing.
pub open spec fn successful_writes(writes: Seq<Option<Seq<u8>>>) -> Seq<u8>
    decreases writes.len(),
{
    if writes.len() == 0 {
        Seq::empty()
    } else {
        successful_writes(writes.drop_last()) + match writes.last() {
            Some(b) => b,
            None => Seq::empty(),
        }
    }
}

/// Law: a buffer that starts empty (new or cleared) and then sees a run of
/// writes, each of which appends its bytes on success and changes nothing on
/// failure, holds after each step the bytes of the successful writes so far,
/// in order.
pub proof fn law_writes_concatenate<const CAP: usize>(
    states: Seq<ByteSerializerStack<CAP>>,
    writes: Seq<Option<Seq<u8>>>,
)
    requires
        states.len() == writes.len() + 1,
        states[0]@ == Seq::<u8>::empty(),
        forall|i: int|
            0 <= i < writes.len() ==> #[trigger] states[i + 1]@ == states[i]@ + match writes[i] {
                Some(b) => b,
                None => Seq::<u8>::empty(),
            },
    ensures
        forall|k: int| 0 <= k < states.len() ==> #[trigger] states[k]@ == successful_writes(writes.take(k)),
{
    assert forall|k: int| 0 <= k < states.len() implies #[trigger] states[k]@ == successful_writes(writes.take(k)) by {
        lemma_writes_prefix(states, writes, k);
    }
}

proof fn lemma_writes_prefix<const CAP: usize>(states: Seq<ByteSerializerStack<CAP>>, writes: Seq<Option<Seq<u8>>>, k: int)
    requires
        states.len() == writes.len() + 1,
        states[0]@ == Seq::<u8>::empty(),
        forall|i: int|
            0 <= i < writes.len() ==> #[trigger] states[i + 1]@ == states[i]@ + match writes[i] {
                Some(b) => b,
                None => Seq::<u8>::empty(),
            },
        0 <= k < states.len(),
    ensures
        states[k]@ == successful_writes(writes.take(k)),
    decreases k,
{
    if k == 0 {
        assert(successful_writes(writes.take(0)) =~= Seq::<u8>::empty());
    } else {
        lemma_writes_prefix(states, writes, k - 1);
        assert(writes.take(k).drop_last() =~= writes.take(k - 1));
        assert(states[(k - 1) + 1]@ == states[k - 1]@ + match writes[k - 1] {
            Some(b) => b,
            None => Seq::<u8>::empty(),
        });
        assert(states[k]@ =~= successful_writes(writes.take(k)));
    }
}

} // verus!
