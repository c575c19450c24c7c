use byteserde::prelude::{to_bytes_heap, to_bytes_stack, to_serializer_heap, to_serializer_stack};
use byteserde::prelude::{ByteSerializerHeap, ByteSerializerStack};

fn check_u16<const CAP: usize>(ser: &mut ByteSerializerStack<CAP>, inp: u16, idx: usize, le: bool) {
    match le {
        true => ser.serialize_le(inp).unwrap(),
        false => ser.serialize_be(inp).unwrap(),
    };
    println!("ser:x {}", ser.fmt_lower_hex(false));
    println!("{:?}", &ser.as_slice()[idx..idx + 2]);
    let out = match le {
        true => u16::from_le_bytes(ser.as_slice()[idx..idx + 2].try_into().unwrap()),
        false => u16::from_be_bytes(ser.as_slice()[idx..idx + 2].try_into().unwrap()),
    };
    assert_eq!(inp, out);
    assert_eq!(ser.len(), idx + 2);
}

#[test]
fn test_serializer_u16() {
    let ser = &mut ByteSerializerStack::<10>::default();
    // as "Little Endian"
    check_u16(ser, u16::MAX, 0, true);
    check_u16(ser, 0x000A_u16, 2, true);
    // as "Big Endian"
    check_u16(ser, u16::MIN, 4, false);
    check_u16(ser, 0x000B_u16, 6, false);
}

#[test]
fn stack_serializer_writes_exact_bytes_of_each_order() {
    let mut ser = ByteSerializerStack::<32>::default();
    ser.serialize_be(0x0102_0304_u32).unwrap();
    ser.serialize_le(0x0102_0304_u32).unwrap();
    ser.serialize_be(-2_i16).unwrap();
    ser.serialize_le(1_u64).unwrap();
    assert_eq!(
        ser.as_slice(),
        &[1, 2, 3, 4, 4, 3, 2, 1, 0xff, 0xfe, 1, 0, 0, 0, 0, 0, 0, 0]
    );
    assert_eq!(ser.len(), 18);
    assert_eq!(ser.avail(), 14);
    assert_eq!(ser.capacity(), 32);
    assert!(!ser.is_empty());
}

#[test]
fn stack_serializer_native_order_is_the_machines() {
    let mut ser = ByteSerializerStack::<8>::default();
    ser.serialize_ne(0x1234_u16).unwrap();
    assert_eq!(ser.as_slice(), &0x1234_u16.to_ne_bytes());
}

#[test]
fn stack_serializer_refuses_what_does_not_fit() {
    let mut ser = ByteSerializerStack::<3>::default();
    ser.serialize_be(0xAABB_u16).unwrap();
    let err = ser.serialize_be(0xCCDD_u16).unwrap_err();
    assert_eq!(
        err.message,
        "Failed to add a slice size: 2 into ByteSerializerStack<3> { len: 2, cap: 3, bytes: 0000: aa bb  | \u{aa} \u{bb}  }"
    );
    // a failed append of one slice writes nothing
    assert_eq!(ser.as_slice(), &[0xaa, 0xbb]);
    ser.serialize_bytes_slice(&[7]).unwrap();
    assert_eq!(ser.as_slice(), &[0xaa, 0xbb, 7]);
    assert_eq!(ser.avail(), 0);
}

#[test]
fn stack_serializer_clear_and_reset_empty_it() {
    let mut ser = ByteSerializerStack::<4>::default();
    ser.serialize_bytes_slice(&[1, 2, 3]).unwrap();
    ser.clear();
    assert!(ser.is_empty());
    assert_eq!(ser.bytes(), &[] as &[u8]);
    assert_eq!(ser.avail(), 4);
    ser.serialize_bytes_slice(&[9]).unwrap();
    ser.reset();
    assert_eq!(ser.len(), 0);
    assert_eq!(ser.as_slice(), &[] as &[u8]);
}

#[test]
fn stack_serializer_lower_hex() {
    let mut ser = ByteSerializerStack::<4>::default();
    ser.serialize_bytes_slice(b"AB").unwrap();
    assert_eq!(ser.fmt_lower_hex(false), "ByteSerializerStack<4> { len: 2, cap: 4, bytes: 0000: 41 42  | A B  }");
    assert_eq!(ser.fmt_lower_hex(true), "ByteSerializerStack<4> { len: 2, cap: 4, bytes: \n0000: 41 42  | A B  }");
}

#[test]
fn to_bytes_stack_pads_with_zeros() {
    let (arr, n) = to_bytes_stack::<12, String>(&"ab".to_string()).unwrap();
    assert_eq!(n, 10);
    assert_eq!(arr, [0, 0, 0, 0, 0, 0, 0, 2, b'a', b'b', 0, 0]);
    assert!(to_bytes_stack::<6, String>(&"ab".to_string()).is_err());
}

#[test]
fn heap_serializer_grows_and_matches_stack() {
    let mut heap = ByteSerializerHeap::with_capacity(1);
    heap.serialize_be(0x0102_0304_u32).unwrap();
    heap.serialize_le(0x0506_u16).unwrap();
    heap.serialize_bytes_slice(&[9, 9]).unwrap();
    assert_eq!(heap.as_slice(), &[1, 2, 3, 4, 6, 5, 9, 9]);
    assert_eq!(heap.len(), 8);
    assert!(heap.capacity() >= 8);
    let mut stack = ByteSerializerStack::<16>::default();
    stack.serialize_be(0x0102_0304_u32).unwrap();
    stack.serialize_le(0x0506_u16).unwrap();
    stack.serialize_bytes_slice(&[9, 9]).unwrap();
    assert_eq!(stack.as_slice(), heap.as_slice());
    heap.clear();
    assert!(heap.is_empty());
}

#[test]
fn heap_serializer_lower_hex() {
    let mut heap = ByteSerializerHeap::default();
    heap.serialize_bytes_slice(b"AB").unwrap();
    assert_eq!(heap.fmt_lower_hex(false), "ByteSerializerHeap { len: 2, bytes: 0000: 41 42  | A B  }");
}

#[test]
fn one_value_same_bytes_on_stack_and_heap() {
    let s = "hello".to_string();
    let stack: ByteSerializerStack<64> = to_serializer_stack(&s).unwrap();
    let heap: ByteSerializerHeap = to_serializer_heap(&s).unwrap();
    assert_eq!(stack.as_slice(), heap.as_slice());
    let bytes = to_bytes_heap(&s).unwrap();
    assert_eq!(&bytes[..], stack.as_slice());
    assert_eq!(stack.as_slice(), &[0, 0, 0, 0, 0, 0, 0, 5, b'h', b'e', b'l', b'l', b'o']);
}
