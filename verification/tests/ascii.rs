use byteserde::prelude::{from_serializer_stack, to_serializer_heap, to_serializer_stack};
use byteserde::prelude::{ByteDeserializeSlice, ByteDeserializerSlice, ByteSerializedLenOf, ByteSerializedSizeOf};
use byteserde::prelude::{ByteSerializerHeap, ByteSerializerStack};
use byteserde::prelude::{CharAscii, ConstCharAscii, StringAscii, StringAsciiFixed};

#[test]
fn test_take() {
    const ELEVEN: usize = 11;
    const SPACE: u8 = b' ';
    const RIGHT: bool = true;
    let inp_str: StringAsciiFixed<ELEVEN, SPACE, RIGHT> = b"0123456789".as_slice().into();
    println!("inp_str: {}", inp_str.fmt_display());
    println!("inp_str:x {}", inp_str.fmt_lower_hex(false));

    let ser_stack: ByteSerializerStack<128> = to_serializer_stack(&inp_str).unwrap();
    println!("ser_stack: {}", ser_stack.fmt_lower_hex(true));

    let des = &mut ByteDeserializerSlice::new(ser_stack.as_slice());

    // take half shall FAIL
    let out_err = StringAsciiFixed::<ELEVEN, SPACE, RIGHT>::byte_deserialize_take(des, ELEVEN / 2).unwrap_err();
    println!("out_err: {:?}", out_err);

    // take double shall FAIL
    let out_err = StringAsciiFixed::<ELEVEN, SPACE, RIGHT>::byte_deserialize_take(des, ELEVEN * 2).unwrap_err();
    println!("out_err: {:?}", out_err);
    // take correct shall PASS - IMPORTANT no bytes depleted by failed takes
    let out_str = StringAsciiFixed::<ELEVEN, SPACE, RIGHT>::byte_deserialize(des).unwrap();
    println!("out_str: {:?}", out_str);
    assert_eq!(out_str, inp_str);
    assert_eq!(out_str.bytes(), b" 0123456789");
}

#[test]
fn test_from_u64_pass() {
    let inp_str: StringAsciiFixed<20, b'0', true> = StringAsciiFixed::from_u64(u64::MAX);
    println!("inp_str:? {:?}", inp_str);
    assert_eq!(inp_str.bytes(), b"18446744073709551615");
}

#[test]
fn test_from_u32_pass() {
    let inp_str: StringAsciiFixed<10, b'0', true> = StringAsciiFixed::from_u32(u32::MAX);
    println!("inp_str:? {:?}", inp_str);
    assert_eq!(inp_str.bytes(), b"4294967295");
}

#[test]
fn test_from_u16_pass() {
    let inp_str: StringAsciiFixed<5, b'0', true> = StringAsciiFixed::from_u16(u16::MAX);
    println!("inp_str:? {:?}", inp_str);
    assert_eq!(inp_str.bytes(), b"65535");
}

#[test]
fn from_unsigned_pads_and_aligns() {
    let right: StringAsciiFixed<7, b'0', true> = StringAsciiFixed::from_u16(42);
    assert_eq!(right.bytes(), b"0000042");
    let left: StringAsciiFixed<12, b' ', false> = StringAsciiFixed::from_u32(0);
    assert_eq!(left.bytes(), b"0           ");
    let wide: StringAsciiFixed<21, b'_', false> = StringAsciiFixed::from_u64(1_000_000);
    assert_eq!(wide.bytes(), b"1000000______________");
}

#[test]
fn string_ascii_fixed_from_slices_and_arrays() {
    // an array of exactly LEN bytes
    let inp_str: StringAsciiFixed<5, 0x20, false> = b"ABCDE".into();
    assert_eq!(inp_str.bytes(), [0x41, 0x42, 0x43, 0x44, 0x45]);
    // only the first LEN bytes of a longer slice, either alignment
    let inp_str: StringAsciiFixed<5, 0x20, false> = b"ABCDEFG".as_slice().into();
    assert_eq!(inp_str.bytes(), [0x41, 0x42, 0x43, 0x44, 0x45]);
    let inp_str: StringAsciiFixed<5, 0x20, true> = b"ABCDEFG".as_slice().into();
    assert_eq!(inp_str.bytes(), [0x41, 0x42, 0x43, 0x44, 0x45]);
    // a shorter slice, padded on the right or on the left
    let inp_str: StringAsciiFixed<5, 0x20, false> = b"ABCD".as_slice().into();
    assert_eq!(inp_str.bytes(), [0x41, 0x42, 0x43, 0x44, 0x20]);
    let inp_str: StringAsciiFixed<5, 0x20, true> = b"ABCD".as_slice().into();
    assert_eq!(inp_str.bytes(), [0x20, 0x41, 0x42, 0x43, 0x44]);
    assert_eq!(inp_str.len(), 5);
    assert!(!inp_str.is_empty());
    assert_eq!(inp_str.byte_len(), 5);
    let empty: StringAsciiFixed<0, b' ', true> = b"xyz".as_slice().into();
    assert!(empty.is_empty());
    let dflt: StringAsciiFixed<3, b'*', true> = Default::default();
    assert_eq!(dflt.bytes(), b"***");
}

#[test]
fn string_ascii_fixed_formats() {
    let inp_str: StringAsciiFixed<5, 0x20, false> = b"ABCDE".into();
    assert_eq!(inp_str.fmt_lower_hex(false), "StringAsciiFixed<0x05, 0x20, 'L'>(0000: 41 42 43 44  45  | A B C D  E )");
    assert_eq!(inp_str.fmt_lower_hex(true), "StringAsciiFixed<0x05, 0x20, 'L'>(\n0000: 41 42 43 44  45  | A B C D  E )");
    assert_eq!(inp_str.fmt_display(), "ABCDE");
    let odd: StringAsciiFixed<2, 0x20, true> = [0xff_u8, b'a'].as_slice().into();
    assert_eq!(odd.fmt_display(), "\u{fffd}a");
    assert_eq!(odd.fmt_lower_hex(false), "StringAsciiFixed<0x02, 0x20, 'R'>(0000: ff 61  | \u{ff} a )");
}

#[test]
fn string_ascii_fixed_on_stack_and_heap() {
    let inp_str: StringAsciiFixed<4, b'.', true> = b"ab".as_slice().into();
    let stack: ByteSerializerStack<8> = to_serializer_stack(&inp_str).unwrap();
    let heap: ByteSerializerHeap = to_serializer_heap(&inp_str).unwrap();
    assert_eq!(stack.as_slice(), b"..ab");
    assert_eq!(stack.as_slice(), heap.as_slice());
    let out: StringAsciiFixed<4, b'.', true> = from_serializer_stack(&stack).unwrap();
    assert_eq!(out, inp_str);
    let too_small = to_serializer_stack::<3, StringAsciiFixed<4, b'.', true>>(&inp_str);
    assert!(too_small.is_err());
}

#[test]
fn test_string_ascii_take() {
    let inp_str: StringAscii = b"0123456789".into();
    println!("inp_str: {}", inp_str.fmt_lower_hex(false));

    let ser_stack: ByteSerializerStack<128> = to_serializer_stack(&inp_str).unwrap();
    println!("ser_stack: {}", ser_stack.fmt_lower_hex(true));

    let des = &mut ByteDeserializerSlice::new(ser_stack.as_slice());

    // take half + 1 shall SUCCESS first time
    let depleted = inp_str.len() / 2 + 1;
    let out_str = StringAscii::byte_deserialize_take(des, depleted).unwrap();
    println!("out_str: {}", out_str.fmt_lower_hex(false));
    assert_eq!(out_str.bytes(), &inp_str.bytes()[0..depleted]);

    // take half + 1 shall FAILS second  time
    let out_err = StringAscii::byte_deserialize_take(des, depleted).unwrap_err();
    println!("out_err: {:?}", out_err);
    assert_eq!(des.remaining(), inp_str.len() - depleted);

    // take remaining shall SUCCESS third time
    let out_str = StringAscii::byte_deserialize(des).unwrap();
    println!("out_str: {}", out_str.fmt_lower_hex(false));
    assert_eq!(out_str.bytes(), &inp_str.bytes()[depleted..]);
    assert_eq!(des.remaining(), 0);
}

#[test]
fn string_ascii_is_read_greedily() {
    let inp_str: StringAscii = b"ABCDE".into();
    assert_eq!(inp_str.bytes(), [0x41, 0x42, 0x43, 0x44, 0x45]);
    let inp_long: StringAscii = b"ABCDEFG".as_slice().into();
    assert_eq!(inp_long.bytes(), [0x41, 0x42, 0x43, 0x44, 0x45, 0x46, 0x47]);
    // written twice, read once: reading takes all the bytes
    let mut ser_stack: ByteSerializerStack<128> = to_serializer_stack(&inp_str).unwrap();
    ser_stack.serialize(&inp_str).unwrap();
    let out_str: StringAscii = from_serializer_stack(&ser_stack).unwrap();
    assert_eq!(StringAscii::from(b"ABCDEABCDE"), out_str);
    assert_eq!(out_str.byte_len(), 10);
    assert!(!out_str.is_empty());
    assert_eq!(inp_str.fmt_lower_hex(false), "StringAscii(0000: 41 42 43 44  45  | A B C D  E )");
    assert_eq!(inp_str.fmt_display(), "ABCDE");
    assert_eq!(inp_str.clone(), inp_str);
}

#[test]
fn test_char_ascii() {
    let inp_char: CharAscii = b'A'.into();
    println!("inp_char: {:?}", inp_char);

    let ser_stack: ByteSerializerStack<128> = to_serializer_stack(&inp_char).unwrap();
    println!("ser_stack: {}", ser_stack.fmt_lower_hex(true));

    let ser_heap: ByteSerializerHeap = to_serializer_heap(&inp_char).unwrap();
    println!("ser_heap: {}", ser_heap.fmt_lower_hex(true));
    assert_eq!(ser_stack.as_slice(), ser_heap.as_slice());

    let des = &mut ByteDeserializerSlice::new(ser_stack.as_slice());
    let out_char = CharAscii::byte_deserialize(des).unwrap();
    println!("out_char: {:?}", out_char);
    assert_eq!(out_char, inp_char);
}

#[test]
fn char_ascii_parts() {
    let inp_char: CharAscii = b'A'.into();
    assert_eq!(inp_char.bytes(), [0x41]);
    assert_eq!(inp_char.as_byte(), b'A');
    assert_eq!(u8::from(&inp_char), b'A');
    assert_eq!(CharAscii::new(b'z').as_byte(), b'z');
    assert_eq!(inp_char.byte_len(), 1);
    assert_eq!(inp_char.fmt_lower_hex(), "CharAscii(0x41)");
    assert_eq!(CharAscii::new(0x0a).fmt_lower_hex(), "CharAscii(0xa)");
    assert_eq!(inp_char.fmt_display(), "A");
    let empty = ByteDeserializerSlice::new(&[]).deserialize::<CharAscii>();
    assert!(empty.is_err());
    assert_eq!(CharAscii::from_slice(b"AB".as_slice()).bytes(), [0x41]);
}

#[test]
fn const_char_ascii_reads_only_its_byte() {
    let inp_char: ConstCharAscii<b'+'> = Default::default();
    assert_eq!(inp_char.bytes(), [43]);
    assert_eq!(ConstCharAscii::<b'+'>::to_char(), '+');
    assert_eq!(ConstCharAscii::<b'+'>::byte_size(), 1);
    assert_eq!(inp_char.byte_len(), 1);
    assert_eq!(inp_char.fmt_lower_hex(), "ConstCharAscii<43>(0x2b)");
    assert_eq!(inp_char.fmt_display(), "+");

    let ser_stack: ByteSerializerStack<128> = to_serializer_stack(&inp_char).unwrap();
    assert_eq!(ser_stack.as_slice(), b"+");

    let bytes = [b'+', b'-'];
    let des = &mut ByteDeserializerSlice::new(&bytes);
    let out_plus: ConstCharAscii<b'+'> = des.deserialize().unwrap();
    assert_eq!(out_plus, ConstCharAscii::<b'+'>::default());
    let out_res = des.deserialize::<ConstCharAscii<b'+'>>();
    assert_eq!(out_res.unwrap_err().message, "Type ConstCharAscii<43>('+') expected: 0x2b actual: 0x2d");
}

#[test]
fn const_char_ascii_mismatch_names_escaped_chars() {
    let bytes = [b'x'];
    let des = &mut ByteDeserializerSlice::new(&bytes);
    let out_res = des.deserialize::<ConstCharAscii<b'\''>>();
    assert_eq!(out_res.unwrap_err().message, "Type ConstCharAscii<39>('\\'') expected: 0x27 actual: 0x78");
}
