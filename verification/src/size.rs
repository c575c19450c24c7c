//! The number of bytes that a value occupies once serialized, known ahead of
//! serializing it.
use vstd::prelude::*;
use vstd::utf8::encode_utf8;

verus! {

/// Types whose every value occupies the same number of bytes once
/// serialized, known from the type alone.
pub trait ByteSerializedSizeOf {
    /// The number of bytes that every value of the type occupies.
    spec fn byte_size_spec() -> nat;

    /// The number of bytes that every value of the type occupies.
    fn byte_size() -> (r: usize)
        ensures
            r == Self::byte_size_spec(),
    ;
}

impl ByteSerializedSizeOf for u8 {
    open spec fn byte_size_spec() -> nat {
        vstd::layout::size_of::<u8>()
    }

    fn byte_size() -> (r: usize) {
        core::mem::size_of::<u8>()
    }
}

impl ByteSerializedSizeOf for i8 {
    open spec fn byte_size_spec() -> nat {
        vstd::layout::size_of::<i8>()
    }

    fn byte_size() -> (r: usize) {
        core::mem::size_of::<i8>()
    }
}

impl ByteSerializedSizeOf for u16 {
    open spec fn byte_size_spec() -> nat {
        vstd::layout::size_of::<u16>()
    }

    fn byte_size() -> (r: usize) {
        core::mem::size_of::<u16>()
    }
}

impl ByteSerializedSizeOf for i16 {
    open spec fn byte_size_spec() -> nat {
        vstd::layout::size_of::<i16>()
    }

    fn byte_size() -> (r: usize) {
        core::mem::size_of::<i16>()
    }
}

impl ByteSerializedSizeOf for u32 {
    open spec fn byte_size_spec() -> nat {
        vstd::layout::size_of::<u32>()
    }

    fn byte_size() -> (r: usize) {
        core::mem::size_of::<u32>()
    }
}

impl ByteSerializedSizeOf for i32 {
    open spec fn byte_size_spec() -> nat {
        vstd::layout::size_of::<i32>()
    }

    fn byte_size() -> (r: usize) {
        core::mem::size_of::<i32>()
    }
}

impl ByteSerializedSizeOf for u64 {
    open spec fn byte_size_spec() -> nat {
        vstd::layout::size_of::<u64>()
    }

    fn byte_size() -> (r: usize) {
        core::mem::size_of::<u64>()
    }
}

impl ByteSerializedSizeOf for i64 {
    open spec fn byte_size_spec() -> nat {
        vstd::layout::size_of::<i64>()
    }

    fn byte_size() -> (r: usize) {
        core::mem::size_of::<i64>()
    }
}

impl ByteSerializedSizeOf for u128 {
    open spec fn byte_size_spec() -> nat {
        vstd::layout::size_of::<u128>()
    }

    fn byte_size() -> (r: usize) {
        core::mem::size_of::<u128>()
    }
}

impl ByteSerializedSizeOf for i128 {
    open spec fn byte_size_spec() -> nat {
        vstd::layout::size_of::<i128>()
    }

    fn byte_size() -> (r: usize) {
        core::mem::size_of::<i128>()
    }
}

impl ByteSerializedSizeOf for usize {
    open spec fn byte_size_spec() -> nat {
        vstd::layout::size_of::<usize>()
    }

    fn byte_size() -> (r: usize) {
        core::mem::size_of::<usize>()
    }
}

impl ByteSerializedSizeOf for isize {
    open spec fn byte_size_spec() -> nat {
        vstd::layout::size_of::<isize>()
    }

    fn byte_size() -> (r: usize) {
        core::mem::size_of::<isize>()
    }
}

/// The size of each fixed-width numeric is its width in bytes, the number of
/// bytes that the serializers write for it: one for `u8` and `i8` up to
/// sixteen for `u128` and `i128`. `usize` and `isize` have one size, the
/// machine's word.
pub proof fn law_numeric_size_of_is_width()
    ensures
        <u8 as ByteSerializedSizeOf>::byte_size_spec() == 1,
        <i8 as ByteSerializedSizeOf>::byte_size_spec() == 1,
        <u16 as ByteSerializedSizeOf>::byte_size_spec() == 2,
        <i16 as ByteSerializedSizeOf>::byte_size_spec() == 2,
        <u32 as ByteSerializedSizeOf>::byte_size_spec() == 4,
        <i32 as ByteSerializedSizeOf>::byte_size_spec() == 4,
        <u64 as ByteSerializedSizeOf>::byte_size_spec() == 8,
        <i64 as ByteSerializedSizeOf>::byte_size_spec() == 8,
        <u128 as ByteSerializedSizeOf>::byte_size_spec() == 16,
        <i128 as ByteSerializedSizeOf>::byte_size_spec() == 16,
        <usize as ByteSerializedSizeOf>::byte_size_spec() == <isize as ByteSerializedSizeOf>::byte_size_spec(),
{
    broadcast use vstd::layout::layout_of_primitives;
}

/// Types whose values occupy a number of bytes that depends on the value.
pub trait ByteSerializedLenOf {
    /// The number of bytes that this value occupies.
    spec fn byte_len_spec(&self) -> nat;

    /// The number of bytes that this value occupies.
    fn byte_len(&self) -> (r: usize)
        requires
            self.byte_len_spec() <= usize::MAX,
        ensures
            r == self.byte_len_spec(),
    ;
}

/// A `String` counts its eight length bytes and the bytes of its UTF-8
/// encoding.
impl ByteSerializedLenOf for String {
    open spec fn byte_len_spec(&self) -> nat {
        8 + encode_utf8(self@).len()
    }

    fn byte_len(&self) -> (r: usize) {
        8 + self.as_str().as_bytes().len()
    }
}

/// A `char` counts its one count byte and the bytes of its UTF-8 encoding.
impl ByteSerializedLenOf for char {
    open spec fn byte_len_spec(&self) -> nat {
        1 + encode_utf8(seq![*self]).len()
    }

    fn byte_len(&self) -> (r: usize) {
        1 + crate::utils::strings::utf8::char_len_utf8(*self)
    }
}

} // verus!
