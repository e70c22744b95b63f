use connection_handler::crypto::{
    encrypt_symmetric, encrypt_symmetric_with_nonce, try_decrypt_sym, InvalidKeyLength,
    SymmetricKey, NONCE_SIZE, TAG_SIZE,
};

#[test]
fn a_key_is_made_of_sixteen_bytes() {
    let bytes: Vec<u8> = (1..=16).collect();
    let key = SymmetricKey::new_from_slice(&bytes).ok().unwrap();
    assert_eq!(key.bytes().to_vec(), bytes);
    assert_eq!(SymmetricKey::new([7; 16]).bytes(), [7; 16]);
}

#[test]
fn other_lengths_make_no_key() {
    for len in [0usize, 1, 15, 17, 32] {
        let bytes = vec![0u8; len];
        assert_eq!(SymmetricKey::new_from_slice(&bytes).err(), Some(InvalidKeyLength));
    }
}

#[test]
fn generated_keys_differ() {
    assert_ne!(SymmetricKey::generate().bytes(), SymmetricKey::generate().bytes());
}

#[test]
fn a_packet_is_a_nonce_and_what_the_cipher_makes() {
    let packet = encrypt_symmetric_with_nonce(&[0; 16], &SymmetricKey::new([0; 16]), [0; 12]);
    let expected: Vec<u8> = vec![
        0, 0, 0, 0, 0, 0, 0, 0, 0, 0, 0, 0, 0x03, 0x88, 0xda, 0xce, 0x60, 0xb6, 0xa3, 0x92, 0xf3,
        0x28, 0xc2, 0xb9, 0x71, 0xb2, 0xfe, 0x78, 0xab, 0x6e, 0x47, 0xd4, 0x2c, 0xec, 0x13, 0xbd,
        0xf5, 0x3a, 0x67, 0xb2, 0x12, 0x57, 0xbd, 0xdf,
    ];
    assert_eq!(packet, expected);
}

#[test]
fn a_sealed_packet_opens_under_its_key() {
    let key = SymmetricKey::new([3; 16]);
    for data in [&b""[..], &b"x"[..], &b"some data"[..], &[9u8; 1324][..]] {
        let packet = encrypt_symmetric(data, &key);
        assert_eq!(packet.len(), NONCE_SIZE + data.len() + TAG_SIZE);
        assert_eq!(try_decrypt_sym(&packet, &key), Some(data.to_vec()));
    }
}

#[test]
fn a_packet_does_not_open_under_another_key() {
    let packet = encrypt_symmetric(b"some data", &SymmetricKey::new([3; 16]));
    assert_eq!(try_decrypt_sym(&packet, &SymmetricKey::new([4; 16])), None);
}

#[test]
fn a_changed_packet_does_not_open() {
    let key = SymmetricKey::new([3; 16]);
    let packet = encrypt_symmetric(b"some data", &key);
    for i in 0..packet.len() {
        let mut changed = packet.clone();
        changed[i] ^= 1;
        assert_eq!(try_decrypt_sym(&changed, &key), None);
    }
}

#[test]
fn a_short_packet_does_not_open() {
    let key = SymmetricKey::new([3; 16]);
    for len in 0..(NONCE_SIZE + TAG_SIZE) {
        assert_eq!(try_decrypt_sym(&vec![0; len], &key), None);
    }
}

#[test]
fn nonces_differ() {
    let key = SymmetricKey::new([3; 16]);
    assert_ne!(encrypt_symmetric(b"same", &key), encrypt_symmetric(b"same", &key));
}
