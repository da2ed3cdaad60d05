use btc_handshake::{DecodeError, Deserialize, IpAddress, NetworkAddress, Serialize};

#[test]
fn ipv4_address_is_stored_mapped() {
    let address = NetworkAddress::new(0, IpAddress::V4([127, 0, 0, 1]), 8333);
    assert_eq!(
        address.address(),
        [0, 0, 0, 0, 0, 0, 0, 0, 0, 0, 0xFF, 0xFF, 127, 0, 0, 1]
    );
    assert_eq!(address.services(), 0);
    assert_eq!(address.port(), 8333);
}

#[test]
fn ipv6_address_is_stored_as_it_is() {
    let octets: [u8; 16] = [0x20, 0x01, 0x0D, 0xB8, 0, 0, 0, 0, 0, 0, 0, 0, 0, 0, 0, 1];
    let address = NetworkAddress::new(5, IpAddress::V6(octets), 18333);
    assert_eq!(address.address(), octets);
    assert_eq!(address.services(), 5);
    assert_eq!(address.port(), 18333);
}

#[test]
fn address_encodes_to_its_26_bytes() {
    let address = NetworkAddress::new(0x0102_0304_0506_0708, IpAddress::V4([10, 0, 0, 1]), 8333);
    let expected: Vec<u8> = vec![
        0x08, 0x07, 0x06, 0x05, 0x04, 0x03, 0x02, 0x01, // services, little-endian
        0, 0, 0, 0, 0, 0, 0, 0, 0, 0, 0xFF, 0xFF, 10, 0, 0, 1, // address
        0x20, 0x8D, // port, network byte order
    ];
    assert_eq!(address.to_bytes(), expected);
}

#[test]
fn ipv4_address_round_trip() {
    let address = NetworkAddress::new(1, IpAddress::V4([192, 168, 1, 20]), 8333);
    let bytes = address.to_bytes();
    let (decoded, used) = NetworkAddress::from_bytes(&bytes).unwrap();
    assert_eq!(used, 26);
    assert_eq!(decoded.services(), 1);
    assert_eq!(decoded.address(), address.address());
    assert_eq!(decoded.port(), 8333);
}

#[test]
fn ipv6_address_round_trip() {
    let octets: [u8; 16] = [0xFE, 0x80, 0, 0, 0, 0, 0, 0, 1, 2, 3, 4, 5, 6, 7, 8];
    let address = NetworkAddress::new(u64::MAX, IpAddress::V6(octets), 0xABCD);
    let mut bytes = address.to_bytes();
    bytes.push(0x99);
    let (decoded, used) = NetworkAddress::from_bytes(&bytes).unwrap();
    assert_eq!(used, 26);
    assert_eq!(decoded.services(), u64::MAX);
    assert_eq!(decoded.address(), octets);
    assert_eq!(decoded.port(), 0xABCD);
}

#[test]
fn address_with_fewer_than_26_bytes_is_cut_short() {
    let bytes = NetworkAddress::new(0, IpAddress::V4([127, 0, 0, 1]), 8333).to_bytes();
    for available in 0..26 {
        let outcome = NetworkAddress::from_bytes(&bytes[..available]);
        assert!(matches!(outcome, Err(DecodeError::UnexpectedEof)));
    }
}
