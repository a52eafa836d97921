use mojo_arena::deep_hash::{deep_hash, DeepHashable};
use sha2::{Digest, Sha384};

fn blob(bytes: &[u8]) -> DeepHashable {
    DeepHashable::Blob(bytes.to_vec())
}

/// An independent deep hash over the same structure, straight from the
/// definition, for cross-checking.
fn reference_deep_hash(v: &DeepHashable) -> Vec<u8> {
    match v {
        DeepHashable::Blob(b) => {
            let tag = [b"blob".to_vec(), b.len().to_string().into_bytes()].concat();
            let inner = [Sha384::digest(&tag).to_vec(), Sha384::digest(b).to_vec()].concat();
            Sha384::digest(&inner).to_vec()
        }
        DeepHashable::List(items) => {
            let tag = [b"list".to_vec(), items.len().to_string().into_bytes()].concat();
            let mut acc = Sha384::digest(&tag).to_vec();
            for item in items {
                let step = [acc, reference_deep_hash(item)].concat();
                acc = Sha384::digest(&step).to_vec();
            }
            acc
        }
    }
}

fn sample_tree() -> DeepHashable {
    DeepHashable::List(vec![
        blob(b"dataitem"),
        blob(b"1"),
        DeepHashable::List(vec![blob(b"nested"), blob(&[0, 1, 2, 3])]),
        blob(&[]),
    ])
}

#[test]
fn digest_is_48_bytes() {
    assert_eq!(deep_hash(&blob(b"hello")).len(), 48);
    assert_eq!(deep_hash(&sample_tree()).len(), 48);
}

#[test]
fn deterministic_across_independent_computations() {
    let first = deep_hash(&sample_tree());
    let second = deep_hash(&sample_tree());
    assert_eq!(first, second);
}

#[test]
fn matches_independent_implementation() {
    for v in [blob(b""), blob(b"hello"), sample_tree(), DeepHashable::List(vec![])] {
        assert_eq!(deep_hash(&v), reference_deep_hash(&v));
    }
}

#[test]
fn single_byte_change_changes_digest() {
    let base = deep_hash(&sample_tree());
    // Perturb one byte of one blob, anywhere in the tree.
    let perturbed = DeepHashable::List(vec![
        blob(b"dataitem"),
        blob(b"1"),
        DeepHashable::List(vec![blob(b"nested"), blob(&[0, 1, 2, 7])]),
        blob(&[]),
    ]);
    assert_ne!(base, deep_hash(&perturbed));
    // Flip one bit of a top-level blob.
    let flipped = DeepHashable::List(vec![
        blob(b"dataitem"),
        blob(b"0"),
        DeepHashable::List(vec![blob(b"nested"), blob(&[0, 1, 2, 3])]),
        blob(&[]),
    ]);
    assert_ne!(base, deep_hash(&flipped));
}

#[test]
fn blob_and_singleton_list_differ() {
    let b = blob(b"x");
    let l = DeepHashable::List(vec![blob(b"x")]);
    assert_ne!(deep_hash(&b), deep_hash(&l));
}
