use connection_handler::crypto::SymmetricKey;
use connection_handler::intro::{encode_intro, parse_intro, INTRO_SIZE, PROTOC_VERSION};

#[test]
fn the_version_is_one_in_little_endian() {
    assert_eq!(PROTOC_VERSION, 1u16.to_le_bytes());
}

#[test]
fn an_intro_holds_the_version_and_the_key() {
    let bytes: [u8; 16] = [1, 2, 3, 4, 5, 6, 7, 8, 9, 10, 11, 12, 13, 14, 15, 16];
    let data = encode_intro(&SymmetricKey::new(bytes));
    assert_eq!(data, vec![1, 0, 1, 2, 3, 4, 5, 6, 7, 8, 9, 10, 11, 12, 13, 14, 15, 16]);
}

#[test]
fn an_intro_reads_back() {
    let key = SymmetricKey::new([0xab; 16]);
    let intro = parse_intro(&encode_intro(&key)).unwrap();
    assert_eq!(intro.protoc, PROTOC_VERSION);
    assert!(intro.is_current());
    assert_eq!(intro.key.bytes(), key.bytes());
}

#[test]
fn what_follows_an_intro_is_not_read() {
    let mut data = encode_intro(&SymmetricKey::new([0xab; 16]));
    data.push(1);
    assert_eq!(parse_intro(&data).unwrap().key.bytes(), [0xab; 16]);
}

#[test]
fn a_short_intro_is_none() {
    for len in 0..INTRO_SIZE {
        assert!(parse_intro(&vec![1; len]).is_none());
    }
}

#[test]
fn another_version_is_not_current() {
    for protoc in [[2, 0], [1, 1], [0, 0], [0, 1]] {
        let mut data = encode_intro(&SymmetricKey::new([0xab; 16]));
        data[0] = protoc[0];
        data[1] = protoc[1];
        let intro = parse_intro(&data).unwrap();
        assert_eq!(intro.protoc, protoc);
        assert!(!intro.is_current());
    }
}
