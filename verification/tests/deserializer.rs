use byteserde::prelude::{from_bytes, from_serializer_heap, from_serializer_stack, from_slice, to_serializer_heap};
use byteserde::prelude::{ByteDeserializerBytes, ByteDeserializerSlice, ByteSerializeStack, ByteSerializerStack};

#[test]
fn test_deserialser_array() {
    let mut des = ByteDeserializerBytes::from(vec![
        1_u8, 2, 3, 4, 5, 6, 7, 8, 9, 10, 1_u8, 2, 3, 4, 5, 6, 7, 8, 9, 10,
    ]);
    println!("des: {}", des.fmt_lower_hex(true));
    assert_eq!(des.len(), 20);
    for _ in 0..2 {
        let out: &[u8; 10] = des.deserialize_bytes_array_ref().unwrap();
        println!("out: {out:?}");
    }
    let res_err = des.deserialize_bytes_array_ref::<5>();
    println!("res_err: {res_err:#?}");
    assert!(res_err.is_err());
}

#[test]
fn test_deserialize_string() {
    let ser = &mut ByteSerializerStack::<128>::default();
    let inp = "whatever".to_string();
    let _ = inp.byte_serialize_stack(ser);
    let mut des = ByteDeserializerBytes::new(ser.as_slice().to_vec().into());
    let out: String = des.deserialize().unwrap();
    assert_eq!(inp, out);

    let ser = &mut ByteSerializerStack::<128>::default();
    let inp = "💖".repeat(8).to_string();
    let _ = inp.byte_serialize_stack(ser);
    let mut des = ByteDeserializerBytes::new(ser.as_slice().to_vec().into());
    let out: String = des.deserialize().unwrap();
    assert_eq!(inp, out);
}

#[test]
fn test_serialize_string_too_short_and_not_utf8() {
    // a string shorter than its length says
    let ser = &mut ByteSerializerStack::<128>::default();
    let _ = ser.serialize_bytes_slice(&8_usize.to_be_bytes());
    let _ = ser.serialize_bytes_slice(&[0xFF_u8]);
    let mut des = ByteDeserializerBytes::new(ser.as_slice().to_vec().into());
    let out = des.deserialize::<String>();
    assert!(out.is_err());

    // invalid utf8
    let ser = &mut ByteSerializerStack::<128>::default();
    let _ = ser.serialize_bytes_slice(&8_usize.to_be_bytes());
    let _ = ser.serialize_bytes_slice(&[0xFF_u8, 0xFF_u8, 0xFF_u8, 0xFF_u8, 0xFF_u8, 0xFF_u8, 0xFF_u8, 0xFF_u8]);
    let mut des = ByteDeserializerBytes::new(ser.as_slice().to_vec().into());
    let out = des.deserialize::<String>();
    assert_eq!(
        out.unwrap_err().message,
        "bytes slice is not a valid utf8 string bytes: 0000: ff ff ff ff  ff ff ff ff | ÿ ÿ ÿ ÿ  ÿ ÿ ÿ ÿ "
    )
}

#[test]
fn test_deserialize_char() {
    let ser = &mut ByteSerializerStack::<128>::default();
    let inp = 'a';
    let _ = inp.byte_serialize_stack(ser);
    let mut des = ByteDeserializerBytes::new(ser.as_slice().to_vec().into());
    let out: char = des.deserialize().unwrap();
    assert_eq!(inp, out);
}

#[test]
fn test_deserialize_char_too_long_and_not_utf8() {
    // a length that no char has
    let ser = &mut ByteSerializerStack::<128>::default();
    let _ = ser.serialize_bytes_slice(&[0x05_u8]);
    let mut des = ByteDeserializerBytes::new(ser.as_slice().to_vec().into());
    let out = des.deserialize::<char>();
    assert!(out.is_err());
    assert_eq!(out.unwrap_err().message, "max char len supported 4 but enchountered 5");

    // invalid utf8
    let ser = &mut ByteSerializerStack::<128>::default();
    let _ = ser.serialize_bytes_slice(&[0x01_u8, 0xFF_u8]);
    let mut des = ByteDeserializerBytes::new(ser.as_slice().to_vec().into());
    let out = des.deserialize::<char>();
    assert!(out.is_err());
    assert_eq!(out.unwrap_err().message, "byte slice is not a valid utf8 char. bytes: 0000: ff  | ÿ ");
}

#[test]
fn slice_reads_numerics_in_each_order() {
    let bytes = [1_u8, 2, 3, 4, 4, 3, 2, 1, 0xff, 0xfe, 0x80];
    let mut des = ByteDeserializerSlice::new(&bytes);
    assert_eq!(des.deserialize_be::<4, u32>().unwrap(), 0x0102_0304);
    assert_eq!(des.deserialize_le::<4, u32>().unwrap(), 0x0102_0304);
    assert_eq!(des.deserialize_be::<2, i16>().unwrap(), -2);
    assert_eq!(des.idx(), 10);
    assert_eq!(des.remaining(), 1);
    assert_eq!(des.deserialize_i8().unwrap(), -128);
    assert!(des.is_empty());
    assert!(des.deserialize_u8().is_err());
    des.reset();
    assert_eq!(des.deserialize_ne::<2, u16>().unwrap(), u16::from_ne_bytes([1, 2]));
}

#[test]
fn slice_failed_read_takes_nothing_and_says_why() {
    let bytes = [0xAA_u8, 0xBB];
    let mut des = ByteDeserializerSlice::new(&bytes);
    let err = des.deserialize_be::<4, u32>().unwrap_err();
    assert_eq!(des.idx(), 0);
    assert!(err.message.starts_with("Failed to get a slice size: 4 bytes from ByteDeserializerSlice"));
    assert_eq!(des.deserialize_bytes_slice(2).unwrap(), &[0xAA, 0xBB]);
}

#[test]
fn slice_peek_does_not_move() {
    let bytes = [1_u8, 2, 3];
    let des = ByteDeserializerSlice::new(&bytes);
    assert_eq!(des.peek_bytes_slice(2).unwrap(), &[1, 2]);
    assert_eq!(des.idx(), 0);
    assert!(des.peek_bytes_slice(4).is_err());
}

#[test]
fn bytes_reads_numerics_and_peeks() {
    let mut des = ByteDeserializerBytes::from(vec![0_u8, 0, 1, 0, 7, 8, 9]);
    assert_eq!(des.deserialize_be::<4, u32>().unwrap(), 256);
    assert_eq!(des.remaining(), 3);
    let peeked = des.peek_bytes(3).unwrap();
    assert_eq!(&peeked[..], &[7, 8, 9]);
    assert_eq!(des.remaining(), 3);
    assert_eq!(&des.peek_bytes(2).unwrap()[..], &[7, 8]);
    assert!(des.peek_bytes(4).is_err());
    assert_eq!(des.deserialize_bytes_slice_remaining(), &[7, 8, 9]);
    assert!(des.is_empty());
}

#[test]
fn greedy_vec_takes_all_that_remains() {
    let bytes = [5_u8, 6, 7];
    let mut des = ByteDeserializerSlice::new(&bytes);
    assert_eq!(des.deserialize_u8().unwrap(), 5);
    let rest: Vec<u8> = des.deserialize().unwrap();
    assert_eq!(rest, vec![6, 7]);
    assert_eq!(des.remaining(), 0);
}

#[test]
fn take_reads_from_exactly_len_bytes() {
    let mut ser = ByteSerializerStack::<64>::default();
    "hi".to_string().byte_serialize_stack(&mut ser).unwrap();
    ser.serialize_bytes_slice(&[1, 2]).unwrap();
    let mut des = ByteDeserializerSlice::new(ser.as_slice());
    // the string occupies 10 bytes: a take of fewer fails and reads nothing
    assert!(des.deserialize_take::<String>(9).is_err());
    assert_eq!(des.idx(), 0);
    let s: String = des.deserialize_take(10).unwrap();
    assert_eq!(s, "hi");
    assert_eq!(des.idx(), 10);
}

#[test]
fn string_and_char_written_are_read_back() {
    let mut ser = ByteSerializerStack::<64>::default();
    "héllo".to_string().byte_serialize_stack(&mut ser).unwrap();
    'é'.byte_serialize_stack(&mut ser).unwrap();
    let mut des = ByteDeserializerSlice::new(ser.as_slice());
    let s: String = des.deserialize().unwrap();
    let c: char = des.deserialize().unwrap();
    assert_eq!(s, "héllo");
    assert_eq!(c, 'é');
    assert!(des.is_empty());
    let heap = to_serializer_heap(&"x".to_string()).unwrap();
    let back: String = from_serializer_heap(&heap).unwrap();
    assert_eq!(back, "x");
    let back: String = from_serializer_stack(&ser).unwrap();
    assert_eq!(back, "héllo");
    let back: String = from_slice(ser.as_slice()).unwrap();
    assert_eq!(back, "héllo");
    let back: String = from_bytes(ser.as_slice().to_vec().into()).unwrap();
    assert_eq!(back, "héllo");
}

#[test]
fn deserializer_lower_hex() {
    let bytes = [0x41_u8, 0x42];
    let mut des = ByteDeserializerSlice::new(&bytes);
    des.deserialize_u8().unwrap();
    println!("{}", des.fmt_lower_hex(false));
    assert!(des.fmt_lower_hex(false).starts_with("ByteDeserializerSlice { len: 2, idx: 1, remaining: 1, bytes: "));
}
