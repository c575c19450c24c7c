use byteserde::utils::numerics::le_bytes::{FromLeBytes, ToLeBytes};

#[test]
fn le_bytes_of_each_width() {
    assert_eq!(0xAA00_u16.to_bytes(), [0x00, 0xAA]);
    assert_eq!(0x0102_0304_u32.to_bytes(), [4, 3, 2, 1]);
    assert_eq!((-2_i16).to_bytes(), [0xfe, 0xff]);
    assert_eq!(0x0102_usize.to_bytes(), [2, 1, 0, 0, 0, 0, 0, 0]);
}

#[test]
fn le_bytes_read_back() {
    assert_eq!(u16::from_bytes([0x00, 0xAA]), 0xAA00);
    assert_eq!(i32::from_bytes([0xfe, 0xff, 0xff, 0xff]), -2);
    assert_eq!(i128::from_bytes_ref(&i128::MIN.to_bytes()), i128::MIN);
}
