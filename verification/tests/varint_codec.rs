use mojo_arena::varint::{varint_decode, varint_encode, varint_string};

fn round_trip(n: u64) {
    let bytes = varint_encode(n);
    let decoded = varint_decode(&bytes, 0);
    assert_eq!(decoded, Some((n, bytes.len())));
}

#[test]
fn encode_decode_representative_values() {
    for n in [0u64, 1, 127, 128, 16384, (1u64 << 32) - 1] {
        round_trip(n);
    }
}

#[test]
fn encode_zero_is_single_byte() {
    assert_eq!(varint_encode(0), vec![0u8]);
}

#[test]
fn encode_doubles_before_grouping() {
    // 1 encodes as 2, still one byte; 64 encodes as 128, needing two bytes.
    assert_eq!(varint_encode(1), vec![2u8]);
    assert_eq!(varint_encode(63), vec![126u8]);
    assert_eq!(varint_encode(64), vec![0x80u8, 0x01]);
}

#[test]
fn encode_sets_continuation_bits() {
    for n in [200u64, 300, 70000, 1 << 40] {
        let bytes = varint_encode(n);
        for (i, b) in bytes.iter().enumerate() {
            if i + 1 < bytes.len() {
                assert!(b & 0x80 != 0);
            } else {
                assert!(b & 0x80 == 0);
            }
        }
    }
}

#[test]
fn decode_needs_terminator() {
    // Every byte carries the continuation bit: no varint ends here.
    assert_eq!(varint_decode(&vec![0x80u8, 0x80, 0x80], 0), None);
    assert_eq!(varint_decode(&Vec::new(), 0), None);
    assert_eq!(varint_decode(&vec![0x02u8], 1), None);
}

#[test]
fn decode_at_offset() {
    let mut bytes = vec![0xFFu8, 0xFF];
    bytes.extend_from_slice(&varint_encode(16384));
    let decoded = varint_decode(&bytes, 2);
    assert_eq!(decoded, Some((16384u64, bytes.len() - 2)));
}

#[test]
fn decode_rejects_overlong_regions() {
    // Eleven bytes before the terminator can never be a 64-bit varint.
    let bytes = vec![0x80u8, 0x80, 0x80, 0x80, 0x80, 0x80, 0x80, 0x80, 0x80, 0x80, 0x01];
    assert_eq!(varint_decode(&bytes, 0), None);
}

#[test]
fn length_prefixed_string() {
    let body = vec![9u8, 8, 7];
    let enc = varint_string(&body);
    // varint(2 * 3) = [6], then the bytes themselves.
    assert_eq!(enc, vec![6u8, 9, 8, 7]);
}
