use netlink_wire::bytes::{u16_from_be_bytes, u16_to_be_bytes};

#[test]
fn big_endian_u16_puts_the_high_byte_first() {
    assert_eq!(u16_to_be_bytes(0x1234), [0x12, 0x34]);
    assert_eq!(u16_to_be_bytes(0), [0, 0]);
    assert_eq!(u16_to_be_bytes(0xffff), [0xff, 0xff]);
    assert_eq!(u16_to_be_bytes(443), 443u16.to_be_bytes());
}

#[test]
fn big_endian_u16_reads_the_high_byte_first() {
    assert_eq!(u16_from_be_bytes([0x12, 0x34]), 0x1234);
    assert_eq!(u16_from_be_bytes([0x00, 0x50]), 80);
    assert_eq!(u16_from_be_bytes([0xff, 0xff]), 0xffff);
}

#[test]
fn big_endian_u16_round_trips() {
    for x in [0u16, 1, 255, 256, 0x8000, 0xfffe, 0xffff] {
        assert_eq!(u16_from_be_bytes(u16_to_be_bytes(x)), x);
    }
}
