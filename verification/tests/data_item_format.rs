use ed25519_dalek::{Signer, Verifier};
use mojo_arena::data_item::{assemble_data_item, build_data_item, signable_digest};
use mojo_arena::signer::SignerError;
use mojo_arena::tags::{encode_tags, Tag};
use sha2::{Digest, Sha384};

fn content_type(value: &str) -> Vec<Tag> {
    vec![Tag { name: "Content-Type".to_string(), value: value.to_string() }]
}

fn h(data: &[u8]) -> Vec<u8> {
    Sha384::digest(data).to_vec()
}

/// The signable digest computed independently, straight from the layout:
/// the deep hash of the fixed 8-element list.
fn reference_digest(owner: &[u8], tag_bytes: &[u8], payload: &[u8]) -> Vec<u8> {
    let blob = |b: &[u8]| -> Vec<u8> {
        let tag = [b"blob".to_vec(), b.len().to_string().into_bytes()].concat();
        h(&[h(&tag), h(b)].concat())
    };
    let elements: Vec<Vec<u8>> = vec![
        blob(b"dataitem"),
        blob(b"1"),
        blob(b"2"),
        blob(owner),
        blob(b""),
        blob(b""),
        blob(tag_bytes),
        blob(payload),
    ];
    let mut acc = h(b"list8");
    for e in elements {
        acc = h(&[acc, e].concat());
    }
    acc
}

#[test]
fn signable_digest_matches_reference() {
    let owner = vec![3u8; 32];
    let tag_bytes = encode_tags(&content_type("text/plain"));
    let payload = b"hello".to_vec();
    let digest = signable_digest(&owner, &None, &None, &tag_bytes, &payload);
    assert_eq!(digest, reference_digest(&owner, &tag_bytes, &payload));
}

#[test]
fn envelope_layout_is_exact() {
    let seed = vec![5u8; 32];
    let payload = b"hello".to_vec();
    let tags = content_type("text/plain");
    let item = build_data_item(&seed, &tags, &payload).unwrap();

    let key = ed25519_dalek::SigningKey::from_bytes(&[5u8; 32]);
    let owner = key.verifying_key().to_bytes().to_vec();
    let tag_bytes = encode_tags(&tags);
    let digest = reference_digest(&owner, &tag_bytes, &payload);
    let signature = key.sign(&digest).to_bytes().to_vec();

    let mut expected = vec![2u8, 0];
    expected.extend_from_slice(&signature);
    expected.extend_from_slice(&owner);
    expected.push(0);
    expected.push(0);
    expected.extend_from_slice(&1u64.to_le_bytes());
    expected.extend_from_slice(&(tag_bytes.len() as u64).to_le_bytes());
    expected.extend_from_slice(&tag_bytes);
    expected.extend_from_slice(&payload);
    assert_eq!(item, expected);
}

#[test]
fn pre_signature_bytes_are_deterministic() {
    // Two independently built envelopes under different seeds agree on
    // everything that does not depend on the key: the signature type and
    // the fields after the owner.
    let payload = b"hello".to_vec();
    let tags = content_type("text/plain");
    let a = build_data_item(&vec![1u8; 32], &tags, &payload).unwrap();
    let b = build_data_item(&vec![2u8; 32], &tags, &payload).unwrap();
    assert_eq!(a.len(), b.len());
    assert_eq!(a[..2], b[..2]);
    assert_eq!(a[2 + 64 + 32..], b[2 + 64 + 32..]);
    // And a rebuild under the same seed is byte-identical throughout.
    let c = build_data_item(&vec![1u8; 32], &tags, &payload).unwrap();
    assert_eq!(a, c);
}

#[test]
fn embedded_signature_verifies() {
    let seed = vec![11u8; 32];
    let payload = b"payload bytes".to_vec();
    let tags = content_type("application/octet-stream");
    let item = build_data_item(&seed, &tags, &payload).unwrap();

    let signature_bytes: [u8; 64] = item[2..66].try_into().unwrap();
    let owner: [u8; 32] = item[66..98].try_into().unwrap();
    let tag_bytes = encode_tags(&tags);
    let digest = reference_digest(&owner, &tag_bytes, &payload);
    let key = ed25519_dalek::VerifyingKey::from_bytes(&owner).unwrap();
    let signature = ed25519_dalek::Signature::from_bytes(&signature_bytes);
    assert!(key.verify(&digest, &signature).is_ok());
}

#[test]
fn presence_flags_gate_target_and_anchor() {
    let signature = vec![0u8; 64];
    let owner = vec![1u8; 32];
    let target = vec![9u8; 32];
    let with_target = assemble_data_item(
        &signature,
        &owner,
        &Some(target.clone()),
        &None,
        0,
        &Vec::new(),
        &Vec::new(),
    );
    let without = assemble_data_item(&signature, &owner, &None, &None, 0, &Vec::new(), &Vec::new());
    assert_eq!(with_target.len(), without.len() + 32);
    assert_eq!(with_target[2 + 64 + 32], 1);
    assert_eq!(&with_target[2 + 64 + 32 + 1..2 + 64 + 32 + 33], &target[..]);
    assert_eq!(without[2 + 64 + 32], 0);
    assert_eq!(without[2 + 64 + 32 + 1], 0);
}

#[test]
fn wrong_seed_length_propagates() {
    let r = build_data_item(&vec![1u8; 16], &Vec::new(), &b"x".to_vec());
    assert_eq!(r, Err(SignerError::SigningFailure(16)));
}

#[test]
fn empty_tag_list_has_zero_counts() {
    let seed = vec![1u8; 32];
    let item = build_data_item(&seed, &Vec::new(), &b"data".to_vec()).unwrap();
    let base = 2 + 64 + 32 + 1 + 1;
    assert_eq!(&item[base..base + 8], &0u64.to_le_bytes());
    assert_eq!(&item[base + 8..base + 16], &0u64.to_le_bytes());
    assert_eq!(&item[base + 16..], b"data");
}
