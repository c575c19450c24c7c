use byteserde::utils::numerics::be_bytes::{FromBeBytes, ToBeBytes};

#[test]
fn be_bytes_test_u16() {
    let inp = 0xAA00_u16;
    let byt = inp.to_bytes();
    let out = u16::from_bytes(byt);
    println!("inp: {inp}, inp:x {inp:#06x}, inp:b {inp:016b}");
    println!("out: {out}, out:x {out:#06x}, inp:b {out:016b}");
    assert_eq!(byt, [0xAA_u8, 0x00_u8]);
    assert_eq!(inp, out);
}

#[test]
fn be_bytes_of_each_width() {
    assert_eq!(0x01_u8.to_bytes(), [1]);
    assert_eq!((-1_i8).to_bytes(), [0xff]);
    assert_eq!(0x0102_0304_u32.to_bytes(), [1, 2, 3, 4]);
    assert_eq!((-2_i32).to_bytes(), [0xff, 0xff, 0xff, 0xfe]);
    assert_eq!(0x0102_0304_0506_0708_u64.to_bytes(), [1, 2, 3, 4, 5, 6, 7, 8]);
    assert_eq!(i64::MIN.to_bytes(), [0x80, 0, 0, 0, 0, 0, 0, 0]);
    assert_eq!(1_u128.to_bytes()[15], 1);
    assert_eq!((-1_i128).to_bytes(), [0xff; 16]);
    assert_eq!(0x0102_usize.to_bytes(), [0, 0, 0, 0, 0, 0, 1, 2]);
    assert_eq!((-3_isize).to_bytes(), [0xff, 0xff, 0xff, 0xff, 0xff, 0xff, 0xff, 0xfd]);
}

#[test]
fn be_bytes_read_back() {
    assert_eq!(i16::from_bytes([0x80, 0x00]), i16::MIN);
    assert_eq!(u32::from_bytes([0, 0, 1, 0]), 256);
    assert_eq!(i64::from_bytes_ref(&[0xff; 8]), -1);
    assert_eq!(u128::from_bytes(u128::MAX.to_bytes()), u128::MAX);
    assert_eq!(isize::from_bytes(isize::MIN.to_bytes()), isize::MIN);
}
