use bytes::Bytes;
use byteserde::prelude::{from_bytes, from_slice, to_bytes_stack, to_serializer_heap, to_serializer_stack};
use byteserde::prelude::{ByteDeserializerBytes, ByteSerializeStack, ByteSerializedLenOf, ByteSerializedSizeOf, ByteSerializerStack};
use byteserde::prelude::{CharAscii, ConstCharAscii, StringAscii, StringAsciiFixed};
use byteserde::prelude::ByteDeserializerSlice;

#[test]
fn string_read_back_after_more_bytes() {
    let mut ser: ByteSerializerStack<64> = to_serializer_stack(&"sé".to_string()).unwrap();
    ser.serialize_bytes_slice(&[0xff, 0xff]).unwrap();
    let back: String = from_slice(ser.as_slice()).unwrap();
    assert_eq!(back, "sé");
}

#[test]
fn string_read_is_rewritten_to_the_same_bytes() {
    let bytes = [0, 0, 0, 0, 0, 0, 0, 2, b'a', b'b', 7];
    let s: String = from_slice(&bytes).unwrap();
    let again: ByteSerializerStack<16> = to_serializer_stack(&s).unwrap();
    assert_eq!(again.as_slice(), &bytes[..10]);
}

#[test]
fn char_read_is_the_first_char_of_its_bytes() {
    // two chars' bytes under one length byte: the first char is read, and it
    // is written back shorter
    let bytes = [2_u8, b'a', b'b'];
    let c: char = from_slice(&bytes).unwrap();
    assert_eq!(c, 'a');
    let again: ByteSerializerStack<4> = to_serializer_stack(&c).unwrap();
    assert_eq!(again.as_slice(), &[1, b'a']);
    // one char's bytes are written back as they were read
    let bytes = [3_u8, 0xe2, 0x82, 0xac];
    let c: char = from_slice(&bytes).unwrap();
    assert_eq!(c, '€');
    let again: ByteSerializerStack<4> = to_serializer_stack(&c).unwrap();
    assert_eq!(again.as_slice(), &bytes);
}

#[test]
fn ascii_values_read_back_whatever_follows() {
    let fixed: StringAsciiFixed<3, b' ', false> = b"ab".as_slice().into();
    let mut ser: ByteSerializerStack<16> = to_serializer_stack(&fixed).unwrap();
    ser.serialize_bytes_slice(b"zz").unwrap();
    let back: StringAsciiFixed<3, b' ', false> = from_slice(ser.as_slice()).unwrap();
    assert_eq!(back.bytes(), b"ab ");

    let ch = CharAscii::new(b'q');
    let mut ser: ByteSerializerStack<4> = to_serializer_stack(&ch).unwrap();
    ser.serialize_bytes_slice(b"r").unwrap();
    let back: CharAscii = from_slice(ser.as_slice()).unwrap();
    assert_eq!(back, ch);

    let konst: ConstCharAscii<b'|'> = Default::default();
    let mut ser: ByteSerializerStack<4> = to_serializer_stack(&konst).unwrap();
    ser.serialize_bytes_slice(b"|").unwrap();
    let back: ConstCharAscii<b'|'> = from_slice(ser.as_slice()).unwrap();
    assert_eq!(back, konst);
    assert!(from_slice::<ConstCharAscii<b'|'>>(b"/").is_err());

    let s = StringAscii::from(b"xy".as_slice());
    let mut ser: ByteSerializerStack<8> = to_serializer_stack(&s).unwrap();
    ser.serialize_bytes_slice(b"z").unwrap();
    let back: StringAscii = from_slice(ser.as_slice()).unwrap();
    assert_eq!(back.bytes(), b"xyz");
}

#[test]
fn ascii_len_of_is_the_number_of_bytes_written() {
    let fixed: StringAsciiFixed<6, b'-', true> = b"abc".as_slice().into();
    let string = StringAscii::from(b"hello".as_slice());
    let ch = CharAscii::new(b'x');
    let konst: ConstCharAscii<b'#'> = Default::default();
    assert_eq!(fixed.byte_len(), to_serializer_heap(&fixed).unwrap().len());
    assert_eq!(string.byte_len(), to_serializer_heap(&string).unwrap().len());
    assert_eq!(ch.byte_len(), to_serializer_heap(&ch).unwrap().len());
    assert_eq!(konst.byte_len(), to_serializer_heap(&konst).unwrap().len());
    assert_eq!(ConstCharAscii::<b'#'>::byte_size(), to_serializer_heap(&konst).unwrap().len());
}

#[test]
fn numeric_sizes_are_widths() {
    assert_eq!(u8::byte_size(), 1);
    assert_eq!(i8::byte_size(), 1);
    assert_eq!(u16::byte_size(), 2);
    assert_eq!(i16::byte_size(), 2);
    assert_eq!(u32::byte_size(), 4);
    assert_eq!(i32::byte_size(), 4);
    assert_eq!(u64::byte_size(), 8);
    assert_eq!(i64::byte_size(), 8);
    assert_eq!(u128::byte_size(), 16);
    assert_eq!(i128::byte_size(), 16);
    assert_eq!(usize::byte_size(), isize::byte_size());
}

#[test]
fn bytes_are_read_greedily() {
    let b = Bytes::from(vec![1_u8, 2]);
    let mut ser: ByteSerializerStack<8> = to_serializer_stack(&b).unwrap();
    ser.serialize_bytes_slice(&[3]).unwrap();
    let back: Bytes = from_bytes(Bytes::from(ser.as_slice().to_vec())).unwrap();
    assert_eq!(&back[..], &[1, 2, 3]);
}

#[test]
fn numerics_read_back_in_each_order() {
    let mut ser = ByteSerializerStack::<64>::default();
    ser.serialize_be(-12345_i32).unwrap();
    ser.serialize_le(0xDEAD_BEEF_u32).unwrap();
    ser.serialize_ne(7_i64).unwrap();
    ser.serialize_be(u128::MAX - 1).unwrap();
    let mut des = byteserde::prelude::ByteDeserializerSlice::new(ser.as_slice());
    assert_eq!(des.deserialize_be::<4, i32>().unwrap(), -12345);
    assert_eq!(des.deserialize_le::<4, u32>().unwrap(), 0xDEAD_BEEF);
    assert_eq!(des.deserialize_ne::<8, i64>().unwrap(), 7);
    assert_eq!(des.deserialize_be::<16, u128>().unwrap(), u128::MAX - 1);
    assert!(des.is_empty());
}

#[test]
fn string_and_char_len_of_is_the_number_of_bytes_written() {
    assert_eq!("héllo".to_string().byte_len(), 14);
    assert_eq!('é'.byte_len(), 3);
    assert_eq!('€'.byte_len(), 4);
    assert_eq!('a'.byte_len(), 2);
    let s = "héllo".to_string();
    assert_eq!(s.byte_len(), to_serializer_heap(&s).unwrap().len());
    assert_eq!('€'.byte_len(), to_serializer_heap(&'€').unwrap().len());
}

#[test]
fn string_that_does_not_fit_leaves_its_length_written() {
    let mut ser = ByteSerializerStack::<10>::default();
    assert!("abc".to_string().byte_serialize_stack(&mut ser).is_err());
    assert_eq!(ser.as_slice(), &[0, 0, 0, 0, 0, 0, 0, 3]);
    let mut ser = ByteSerializerStack::<4>::default();
    assert!("abc".to_string().byte_serialize_stack(&mut ser).is_err());
    assert!(ser.is_empty());
    let mut ser = ByteSerializerStack::<2>::default();
    assert!('€'.byte_serialize_stack(&mut ser).is_err());
    assert_eq!(ser.as_slice(), &[3]);
}

#[test]
fn bytes_cursor_take_reads_only_len_bytes() {
    let mut des = ByteDeserializerBytes::from(vec![1_u8, 2, 3]);
    let first: Bytes = des.deserialize_take(1).unwrap();
    assert_eq!(&first[..], &[1]);
    assert_eq!(des.idx(), 1);
    let peeked = des.peek_bytes(1).unwrap();
    assert_eq!(&peeked[..], &[2]);
    assert!(des.peek_bytes(3).is_err());
    let s = "hi".to_string();
    let ser: ByteSerializerStack<16> = to_serializer_stack(&s).unwrap();
    let mut bytes = ser.as_slice().to_vec();
    bytes.push(9);
    let mut des = ByteDeserializerBytes::from(bytes);
    assert!(des.deserialize_take::<String>(9).is_err());
    assert!(des.deserialize_take::<String>(12).is_err());
    assert_eq!(des.idx(), 0);
    let back: String = des.deserialize_take(10).unwrap();
    assert_eq!(back, "hi");
    assert_eq!(des.remaining(), 1);
}

#[test]
fn cloned_bytes_cursor_reads_the_same() {
    let mut des = ByteDeserializerBytes::from(vec![1_u8, 2, 3]);
    des.deserialize_u8().unwrap();
    let mut copy = des.clone();
    assert_eq!(copy.idx(), 1);
    assert_eq!(copy.deserialize_bytes_slice_remaining(), &[2, 3]);
    assert_eq!(des.remaining(), 2);
}

#[test]
fn stack_errors_are_the_values_own() {
    let s = "abc".to_string();
    let a = to_serializer_stack::<9, String>(&s).unwrap_err();
    let b = to_bytes_stack::<9, String>(&s).unwrap_err();
    assert_eq!(a.message, b.message);
    let mut ser: ByteSerializerStack<9> = ByteSerializerStack::default();
    let c = s.byte_serialize_stack(&mut ser).unwrap_err();
    assert_eq!(a.message, c.message);
    let mut ser: ByteSerializerStack<9> = ByteSerializerStack::default();
    let d = ser.serialize(&s).unwrap_err();
    assert_eq!(a.message, d.message);
    assert_eq!(ser.len(), 8);
    let tiny = to_bytes_stack::<4, String>(&s).unwrap_err();
    assert!(tiny.message.starts_with("Failed to add a slice size: 8 into "));
}

#[test]
fn stack_writes_concatenate_over_a_run() {
    let mut ser: ByteSerializerStack<6> = ByteSerializerStack::default();
    ser.serialize_bytes_slice(&[1, 2]).unwrap();
    assert!(ser.serialize_bytes_slice(&[9, 9, 9, 9, 9]).is_err());
    ser.serialize_be(0x0304u16).unwrap();
    assert!(ser.serialize_le(0u32).is_err());
    ser.serialize_le(0x0605u16).unwrap();
    assert_eq!(ser.as_slice(), &[1, 2, 3, 4, 5, 6]);
    assert_eq!(ser.as_slice().len(), ser.len());
    ser.clear();
    ser.serialize_bytes_slice(&[7]).unwrap();
    assert_eq!(ser.as_slice(), &[7]);
}

#[test]
fn slice_reads_keep_len_and_move_forward() {
    let bytes = [1u8, 2, 3, 4, 5];
    let mut des = ByteDeserializerSlice::new(&bytes);
    let mut last = des.idx();
    let _ = des.deserialize_u8().unwrap();
    assert!(des.idx() >= last && des.len() == 5);
    last = des.idx();
    assert!(des.deserialize_bytes_slice(9).is_err());
    assert!(des.idx() == last && des.len() == 5);
    let _ = des.deserialize_be::<2, u16>().unwrap();
    assert!(des.idx() >= last && des.len() == 5);
    assert_eq!(des.idx() + des.remaining(), des.len());
    last = des.idx();
    let _ = des.deserialize_bytes_slice_remaining();
    assert!(des.idx() >= last && des.len() == 5 && des.is_empty());
}
