use byteserde::utils::numerics::ne_bytes::{FromNeBytes, ToNeBytes};

#[test]
fn ne_bytes_test_u16() {
    let inp = 0xAA00_u16;
    let byt = inp.to_bytes();
    let out = u16::from_bytes(byt);
    println!("inp: {inp}, inp:x {inp:#06x}, inp:b {inp:016b}");
    println!("out: {out}, out:x {out:#06x}, inp:b {out:016b}");
    let big = u16::from_ne_bytes([0, 1]) == 1;
    if big {
        assert_eq!(byt, [0xAA_u8, 0x00_u8]);
    } else {
        assert_eq!(byt, [0x00_u8, 0xAA_u8]);
    }
    assert_eq!(inp, out);
}

#[test]
fn ne_bytes_are_the_machines() {
    assert_eq!(0x0102_0304_u32.to_bytes(), 0x0102_0304_u32.to_ne_bytes());
    assert_eq!(i64::from_bytes((-5_i64).to_ne_bytes()), -5);
}
