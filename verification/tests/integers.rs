use btc_handshake::wire::{
    get_be16, get_le, i32_from_bits, i32_to_bits, i64_from_bits, i64_to_bits, put_be16, put_le,
};

#[test]
fn put_le_appends_least_significant_first() {
    let mut buffer: Vec<u8> = vec![0xEE];
    put_le(&mut buffer, 0x0102_0304_0506_0708, 8);
    assert_eq!(buffer, vec![0xEE, 8, 7, 6, 5, 4, 3, 2, 1]);

    let mut buffer: Vec<u8> = Vec::new();
    put_le(&mut buffer, 0xD9B4_BEF9, 4);
    assert_eq!(buffer, vec![0xF9, 0xBE, 0xB4, 0xD9]);

    let mut buffer: Vec<u8> = Vec::new();
    put_le(&mut buffer, 0x1234, 2);
    assert_eq!(buffer, vec![0x34, 0x12]);

    let mut buffer: Vec<u8> = vec![1, 2];
    put_le(&mut buffer, 77, 0);
    assert_eq!(buffer, vec![1, 2]);
}

#[test]
fn put_le_keeps_only_the_low_bytes() {
    let mut buffer: Vec<u8> = Vec::new();
    put_le(&mut buffer, 0x0102_0304, 2);
    assert_eq!(buffer, vec![0x04, 0x03]);
}

#[test]
fn get_le_reads_at_an_offset() {
    let input = [0xAAu8, 0xF9, 0xBE, 0xB4, 0xD9, 0xBB];
    assert_eq!(get_le(&input, 1, 4), 0xD9B4_BEF9);
    assert_eq!(get_le(&input, 0, 1), 0xAA);
    assert_eq!(get_le(&input, 4, 2), 0xBBD9);
    assert_eq!(get_le(&input, 6, 0), 0);
    let wide = [0xFFu8; 8];
    assert_eq!(get_le(&wide, 0, 8), u64::MAX);
}

#[test]
fn get_le_agrees_with_std() {
    for value in [0u64, 1, 255, 256, 60002, 0xFFFF_FFFF, 0x1_0000_0000, u64::MAX - 1] {
        let mut buffer: Vec<u8> = Vec::new();
        put_le(&mut buffer, value, 8);
        assert_eq!(buffer, value.to_le_bytes().to_vec());
        assert_eq!(get_le(&buffer, 0, 8), value);
    }
}

#[test]
fn port_bytes_are_big_endian() {
    let mut buffer: Vec<u8> = Vec::new();
    put_be16(&mut buffer, 8333);
    assert_eq!(buffer, vec![0x20, 0x8D]);
    assert_eq!(buffer, 8333u16.to_be_bytes().to_vec());
    assert_eq!(get_be16(&buffer, 0), 8333);
    assert_eq!(get_be16(&[0, 0xFF, 0xFE], 1), 0xFFFE);
}

#[test]
fn signed_numbers_travel_in_twos_complement() {
    assert_eq!(i32_to_bits(0), 0);
    assert_eq!(i32_to_bits(60002), 60002);
    assert_eq!(i32_to_bits(-1), 0xFFFF_FFFF);
    assert_eq!(i32_to_bits(i32::MIN), 0x8000_0000);
    assert_eq!(i32_from_bits(0xFFFF_FFFE), -2);
    assert_eq!(i32_from_bits(0x7FFF_FFFF), i32::MAX);
    assert_eq!(i32_from_bits(0x8000_0000), i32::MIN);
    assert_eq!(i64_to_bits(-1), u64::MAX);
    assert_eq!(i64_to_bits(i64::MIN), 0x8000_0000_0000_0000);
    assert_eq!(i64_to_bits(1_700_000_000), 1_700_000_000);
    assert_eq!(i64_from_bits(u64::MAX), -1);
    assert_eq!(i64_from_bits(0x8000_0000_0000_0000), i64::MIN);
    assert_eq!(i64_from_bits(0x7FFF_FFFF_FFFF_FFFF), i64::MAX);
}
