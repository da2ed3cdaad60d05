use btc_handshake::{DecodeError, Deserialize, Serialize, VarStr};

fn text_of(len: usize) -> String {
    let mut text = String::new();
    for i in 0..len {
        text.push(if i % 2 == 0 { 'a' } else { 'z' });
    }
    text
}

fn round_trip(len: usize, prefix: &[u8]) {
    let text = text_of(len);
    let bytes = VarStr::new(text.clone()).to_bytes();
    assert_eq!(bytes.len(), prefix.len() + len);
    assert_eq!(&bytes[..prefix.len()], prefix);
    assert_eq!(&bytes[prefix.len()..], text.as_bytes());
    let (decoded, used) = VarStr::from_bytes(&bytes).unwrap();
    assert_eq!(used, bytes.len());
    assert_eq!(decoded.text(), text);
}

#[test]
fn default_text_is_empty() {
    let empty = VarStr::default();
    assert_eq!(empty.text(), "");
    assert_eq!(empty.to_bytes(), vec![0u8]);
}

#[test]
fn short_text_has_a_one_byte_length() {
    assert_eq!(VarStr::new(String::from("abc")).to_bytes(), vec![3, b'a', b'b', b'c']);
    round_trip(0, &[0x00]);
    round_trip(1, &[0x01]);
    round_trip(252, &[0xFC]);
}

#[test]
fn medium_text_has_marker_and_two_byte_length() {
    round_trip(253, &[0xFD, 0xFD, 0x00]);
    round_trip(254, &[0xFD, 0xFE, 0x00]);
    round_trip(255, &[0xFD, 0xFF, 0x00]);
    round_trip(256, &[0xFD, 0x00, 0x01]);
    round_trip(0xFFFF, &[0xFD, 0xFF, 0xFF]);
}

#[test]
fn long_text_has_marker_and_four_byte_length() {
    round_trip(0x1_0000, &[0xFE, 0x00, 0x00, 0x01, 0x00]);
    round_trip(0x1_2345, &[0xFE, 0x45, 0x23, 0x01, 0x00]);
}

#[test]
fn length_counts_bytes_not_characters() {
    let text = String::from("h\u{e9}llo \u{20ac}");
    let bytes = VarStr::new(text.clone()).to_bytes();
    assert_eq!(bytes[0] as usize, text.len());
    assert_eq!(bytes[0], 10);
    let (decoded, used) = VarStr::from_bytes(&bytes).unwrap();
    assert_eq!(used, 11);
    assert_eq!(decoded.text(), "h\u{e9}llo \u{20ac}");
}

#[test]
fn decode_leaves_what_follows() {
    let input = [2u8, b'o', b'k', 0xAA, 0xBB];
    let (decoded, used) = VarStr::from_bytes(&input).unwrap();
    assert_eq!(used, 3);
    assert_eq!(decoded.text(), "ok");
}

#[test]
fn decode_accepts_every_marker_width() {
    let two = [0xFDu8, 2, 0, b'h', b'i'];
    let (decoded, used) = VarStr::from_bytes(&two).unwrap();
    assert_eq!((decoded.text(), used), ("hi", 5));

    let four = [0xFEu8, 2, 0, 0, 0, b'h', b'i'];
    let (decoded, used) = VarStr::from_bytes(&four).unwrap();
    assert_eq!((decoded.text(), used), ("hi", 7));

    let eight = [0xFFu8, 2, 0, 0, 0, 0, 0, 0, 0, b'h', b'i'];
    let (decoded, used) = VarStr::from_bytes(&eight).unwrap();
    assert_eq!((decoded.text(), used), ("hi", 11));
}

#[test]
fn declared_length_is_read_with_its_width() {
    assert_eq!(VarStr::length_width(0x00), 0);
    assert_eq!(VarStr::length_width(0xFC), 0);
    assert_eq!(VarStr::length_width(0xFD), 2);
    assert_eq!(VarStr::length_width(0xFE), 4);
    assert_eq!(VarStr::length_width(0xFF), 8);
    assert_eq!(VarStr::read_length(&[0xFC]), Ok((252, 1)));
    assert_eq!(VarStr::read_length(&[0xFD, 0x34, 0x12]), Ok((0x1234, 3)));
    assert_eq!(VarStr::read_length(&[0xFE, 0x78, 0x56, 0x34, 0x12]), Ok((0x1234_5678, 5)));
    assert_eq!(
        VarStr::read_length(&[0xFF, 8, 7, 6, 5, 4, 3, 2, 1]),
        Ok((0x0102_0304_0506_0708, 9))
    );
}

#[test]
fn empty_input_is_cut_short() {
    assert!(matches!(VarStr::from_bytes(&[]), Err(DecodeError::UnexpectedEof)));
    assert_eq!(VarStr::read_length(&[]), Err(DecodeError::UnexpectedEof));
}

#[test]
fn missing_length_bytes_are_cut_short() {
    assert!(matches!(VarStr::from_bytes(&[0xFD, 1]), Err(DecodeError::UnexpectedEof)));
    assert!(matches!(VarStr::from_bytes(&[0xFE, 1, 0, 0]), Err(DecodeError::UnexpectedEof)));
    assert!(matches!(
        VarStr::from_bytes(&[0xFF, 1, 0, 0, 0, 0, 0, 0]),
        Err(DecodeError::UnexpectedEof)
    ));
}

#[test]
fn declared_length_beyond_the_input_is_cut_short() {
    assert!(matches!(VarStr::from_bytes(&[5, b'a', b'b']), Err(DecodeError::UnexpectedEof)));
    assert!(matches!(
        VarStr::from_bytes(&[0xFD, 0x00, 0x01, b'a']),
        Err(DecodeError::UnexpectedEof)
    ));
    assert!(matches!(
        VarStr::from_bytes(&[0xFF, 0xFF, 0xFF, 0xFF, 0xFF, 0xFF, 0xFF, 0xFF, 0xFF, b'a']),
        Err(DecodeError::UnexpectedEof)
    ));
}

#[test]
fn invalid_utf8_is_a_decode_error() {
    assert!(matches!(VarStr::from_bytes(&[2, 0xC3, 0x28]), Err(DecodeError::InvalidUtf8)));
    assert!(matches!(VarStr::from_bytes(&[1, 0xFF]), Err(DecodeError::InvalidUtf8)));
}
