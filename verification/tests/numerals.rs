use mojo_arena::decimal::{u64_dec_bytes, u64_dec_string};

#[test]
fn decimal_bytes_of_representative_values() {
    assert_eq!(u64_dec_bytes(0), b"0".to_vec());
    assert_eq!(u64_dec_bytes(7), b"7".to_vec());
    assert_eq!(u64_dec_bytes(10), b"10".to_vec());
    assert_eq!(u64_dec_bytes(48), b"48".to_vec());
    assert_eq!(u64_dec_bytes(123456789), b"123456789".to_vec());
    assert_eq!(u64_dec_bytes(u64::MAX), b"18446744073709551615".to_vec());
}

#[test]
fn decimal_strings_match_bytes() {
    for n in [0u64, 1, 9, 10, 99, 100, 1000000, u64::MAX] {
        assert_eq!(u64_dec_string(n).into_bytes(), u64_dec_bytes(n));
        assert_eq!(u64_dec_string(n), n.to_string());
    }
}
