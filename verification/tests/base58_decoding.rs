use mojo_arena::base58::{bs58_decode, DecodeError};

fn fixture(j: u8) -> [u8; 32] {
    let mut bytes = [0u8; 32];
    for i in 0..32 {
        bytes[i] = (j as usize * 31 + i * 7 + 13) as u8;
    }
    bytes
}

#[test]
fn round_trips_against_reference_encoder() {
    // 60 fixed 32-byte values, encoded with the reference base58 encoder.
    for j in 0..60u8 {
        let bytes = fixture(j);
        let text = bs58::encode(&bytes).into_string();
        let decoded = bs58_decode(&text).unwrap();
        assert_eq!(decoded, bytes.to_vec());
    }
}

#[test]
fn round_trips_edge_values() {
    for bytes in [[0u8; 32], [0xFFu8; 32]] {
        let text = bs58::encode(&bytes).into_string();
        let decoded = bs58_decode(&text).unwrap();
        assert_eq!(decoded, bytes.to_vec());
    }
}

#[test]
fn matches_reference_decoder() {
    for j in 0..20u8 {
        let bytes = fixture(j);
        let text = bs58::encode(&bytes).into_string();
        let reference = bs58::decode(&text).into_vec().unwrap();
        assert_eq!(bs58_decode(&text).unwrap(), reference);
    }
}

#[test]
fn wrong_length_for_short_valid_text() {
    // Valid alphabet, but far too small a value: "abc" is three bytes.
    match bs58_decode("abc") {
        Err(DecodeError::WrongLength(got)) => assert_eq!(got, 3),
        other => panic!("expected WrongLength, got {:?}", other),
    }
}

#[test]
fn wrong_length_for_overlong_valid_text() {
    // 50 characters of the maximal digit: longer than any 32-byte value.
    let text = "z".repeat(50);
    match bs58_decode(&text) {
        Err(DecodeError::WrongLength(got)) => assert!(got != 32),
        other => panic!("expected WrongLength, got {:?}", other),
    }
}

#[test]
fn invalid_characters_are_rejected() {
    for (text, bad) in [
        ("0AAAAAAAAAAAAAAAAAAAAAAAAAAAAAAAAAAAAAAAAAA", '0'),
        ("AAAAAAAAAAAAAAAAAAAAAAOAAAAAAAAAAAAAAAAAAAA", 'O'),
        ("AAAAAAAAAAAAAAAAAAAAAAAAAAAAAAAAAAAAAAAAAI", 'I'),
        ("lAAAA", 'l'),
        ("AA AA", ' '),
    ] {
        match bs58_decode(text) {
            Err(DecodeError::InvalidChar(c)) => assert_eq!(c, bad),
            other => panic!("expected InvalidChar, got {:?}", other),
        }
    }
}

#[test]
fn reports_first_invalid_character() {
    match bs58_decode("AB0O") {
        Err(DecodeError::InvalidChar(c)) => assert_eq!(c, '0'),
        other => panic!("expected InvalidChar, got {:?}", other),
    }
}

#[test]
fn leading_ones_become_zero_bytes() {
    // A 32-byte value that is all zero except the last byte: 31 leading
    // `1` characters, then the final byte's base58 digits.
    let mut bytes = [0u8; 32];
    bytes[31] = 0xFF;
    let text = bs58::encode(&bytes).into_string();
    assert!(text.starts_with(&"1".repeat(31)));
    let decoded = bs58_decode(&text).unwrap();
    assert_eq!(&decoded[..31], &[0u8; 31]);
    assert_eq!(decoded[31], 0xFF);
}

#[test]
fn all_zero_key_is_32_ones() {
    let decoded = bs58_decode(&"1".repeat(32)).unwrap();
    assert_eq!(decoded, vec![0u8; 32]);
}

#[test]
fn empty_input_is_wrong_length() {
    match bs58_decode("") {
        Err(DecodeError::WrongLength(got)) => assert_eq!(got, 0),
        other => panic!("expected WrongLength, got {:?}", other),
    }
}
