use relay_bridge::packet::{decode_u16, decode_u32, encode_u16, encode_u32};

#[test]
fn en_u32() {
    assert_eq!(encode_u32(0), [0_u8, 0, 0, 0]);
    assert_eq!(encode_u32(0x3B9ACAEC), [0x3B_u8, 0x9A, 0xCA, 0xEC]);
    assert_eq!(encode_u32(u32::MAX), [0xFF, 0xFF, 0xFF, 0xFF]);
}

#[test]
fn en_u16() {
    assert_eq!(encode_u16(0), [0_u8, 0]);
    assert_eq!(encode_u16(0x3B9A), [0x3B_u8, 0x9A]);
    assert_eq!(encode_u16(u16::MAX), [0xFF, 0xFF]);
}

#[test]
fn de_u32() {
    assert_eq!(decode_u32(&[0, 0, 0, 0]), 0_u32);
    assert_eq!(decode_u32(&[0x3B, 0x9A, 0xCA, 0xEC]), 0x3B9ACAEC);
    assert_eq!(decode_u32(&[0xFF, 0xFF, 0xFF, 0xFF]), u32::MAX);
}

#[test]
fn de_u16() {
    assert_eq!(decode_u16(&[0, 0]), 0_u16);
    assert_eq!(decode_u16(&[0x3B, 0x9A]), 0x3B9A);
    assert_eq!(decode_u16(&[0xFF, 0xFF]), u16::MAX);
}

#[test]
fn u16_round_trip() {
    for x in [0_u16, 1, 0x00FF, 0x0100, 0x1234, 0x8000, u16::MAX] {
        assert_eq!(decode_u16(&encode_u16(x)), x);
    }
}

#[test]
fn u32_round_trip() {
    for x in [0_u32, 1, 0xFF, 0x100, 0xFFFF, 0x10000, 0xDEADBEEF, u32::MAX] {
        assert_eq!(decode_u32(&encode_u32(x)), x);
    }
}
