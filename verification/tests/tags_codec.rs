use mojo_arena::tags::{decode_tags, encode_tags, Tag};
use mojo_arena::varint::{varint_decode, varint_encode};

fn tag(name: &str, value: &str) -> Tag {
    Tag { name: name.to_string(), value: value.to_string() }
}

#[test]
fn empty_list_encodes_to_zero_bytes() {
    let encoded = encode_tags(&Vec::new());
    assert_eq!(encoded, Vec::<u8>::new());
}

#[test]
fn content_type_tag_layout() {
    let tags = vec![tag("Content-Type", "text/plain")];
    let encoded = encode_tags(&tags);
    // varint(2 * 1) || varint(2 * 12) || "Content-Type"
    //              || varint(2 * 10) || "text/plain" || 0x00
    let mut expected = vec![2u8];
    expected.push(24);
    expected.extend_from_slice(b"Content-Type");
    expected.push(20);
    expected.extend_from_slice(b"text/plain");
    expected.push(0);
    assert_eq!(encoded, expected);
}

#[test]
fn nonempty_list_starts_with_count_and_ends_with_zero() {
    let tags = vec![tag("a", "b"), tag("c", "d"), tag("a", "e")];
    let encoded = encode_tags(&tags);
    let (count, used) = varint_decode(&encoded, 0).unwrap();
    assert_eq!(count, 3);
    assert_eq!(encoded[..used], varint_encode(3)[..]);
    assert_eq!(*encoded.last().unwrap(), 0u8);
}

#[test]
fn splitting_recovers_pairs_in_order() {
    let tags = vec![
        tag("Content-Type", "application/json"),
        tag("App-Name", "arena"),
        tag("App-Name", "again"),
        tag("", "empty-name"),
        tag("empty-value", ""),
    ];
    let encoded = encode_tags(&tags);
    let pairs = decode_tags(&encoded).unwrap();
    assert_eq!(pairs.len(), tags.len());
    for (p, t) in pairs.iter().zip(tags.iter()) {
        assert_eq!(p.0, t.name.as_bytes().to_vec());
        assert_eq!(p.1, t.value.as_bytes().to_vec());
    }
}

#[test]
fn empty_block_splits_to_empty_list() {
    assert_eq!(decode_tags(&Vec::new()), Some(Vec::new()));
}

#[test]
fn truncated_block_does_not_split() {
    let tags = vec![tag("Content-Type", "text/plain")];
    let mut encoded = encode_tags(&tags);
    encoded.pop();
    assert_eq!(decode_tags(&encoded), None);
}

#[test]
fn trailing_garbage_does_not_split() {
    let tags = vec![tag("a", "b")];
    let mut encoded = encode_tags(&tags);
    encoded.push(7);
    assert_eq!(decode_tags(&encoded), None);
}

#[test]
fn unicode_tag_values_round_trip() {
    let tags = vec![tag("name", "Chloé ✓")];
    let encoded = encode_tags(&tags);
    let pairs = decode_tags(&encoded).unwrap();
    assert_eq!(pairs[0].1, "Chloé ✓".as_bytes().to_vec());
}
