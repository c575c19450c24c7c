//! The items that users of the library need most, in one place.
pub use crate::des_bytes::{from_bytes, ByteDeserializeBytes, ByteDeserializerBytes};
pub use crate::des_slice::{from_serializer_heap, from_serializer_stack, from_slice, ByteDeserializeSlice, ByteDeserializerSlice};
pub use crate::error::SerDesError;
pub use crate::ser_heap::{to_bytes_heap, to_serializer_heap};
pub use crate::ser_heap::{ByteSerializeHeap, ByteSerializerHeap};
pub use crate::ser_stack::{to_bytes_stack, to_serializer_stack};
pub use crate::ser_stack::{ByteSerializeStack, ByteSerializerStack};
pub use crate::size::{ByteSerializedLenOf, ByteSerializedSizeOf};
pub use crate::types::strings::ascii::{CharAscii, ConstCharAscii, StringAscii, StringAsciiFixed};
