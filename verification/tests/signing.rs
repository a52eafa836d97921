use mojo_arena::signer::{generate_seed, public_key_from, sign, verify, SignerError};

fn digest_fixture() -> Vec<u8> {
    (0u8..48).collect()
}

#[test]
fn sign_then_verify_succeeds() {
    let seed = vec![7u8; 32];
    let digest = digest_fixture();
    let pk = public_key_from(&seed).unwrap();
    let sig = sign(&seed, &digest).unwrap();
    assert_eq!(sig.len(), 64);
    assert_eq!(pk.len(), 32);
    assert!(verify(&pk, &digest, &sig));
}

#[test]
fn verification_fails_on_altered_digest() {
    let seed = vec![7u8; 32];
    let digest = digest_fixture();
    let pk = public_key_from(&seed).unwrap();
    let sig = sign(&seed, &digest).unwrap();
    let mut altered = digest.clone();
    altered[20] ^= 1;
    assert!(!verify(&pk, &altered, &sig));
}

#[test]
fn verification_fails_under_other_key() {
    let digest = digest_fixture();
    let sig = sign(&vec![7u8; 32], &digest).unwrap();
    let other_pk = public_key_from(&vec![8u8; 32]).unwrap();
    assert!(!verify(&other_pk, &digest, &sig));
}

#[test]
fn signing_is_deterministic_per_seed_and_digest() {
    let seed = vec![42u8; 32];
    let digest = digest_fixture();
    assert_eq!(sign(&seed, &digest).unwrap(), sign(&seed, &digest).unwrap());
}

#[test]
fn wrong_seed_length_is_rejected() {
    let digest = digest_fixture();
    for len in [0usize, 31, 33, 64] {
        let seed = vec![1u8; len];
        assert_eq!(sign(&seed, &digest), Err(SignerError::SigningFailure(len)));
        assert_eq!(public_key_from(&seed), Err(SignerError::SigningFailure(len)));
    }
}

#[test]
fn matches_reference_keypair_derivation() {
    let seed = [9u8; 32];
    let expected = ed25519_dalek::SigningKey::from_bytes(&seed).verifying_key().to_bytes();
    let pk = public_key_from(&seed.to_vec()).unwrap();
    assert_eq!(pk, expected.to_vec());
}

#[test]
fn generated_seeds_are_fresh() {
    let a = generate_seed().unwrap();
    let b = generate_seed().unwrap();
    assert_eq!(a.len(), 32);
    assert_eq!(b.len(), 32);
    // Two draws of 32 random bytes never collide in practice.
    assert_ne!(a, b);
}

#[test]
fn malformed_key_or_signature_never_verifies() {
    let digest = digest_fixture();
    let seed = vec![7u8; 32];
    let sig = sign(&seed, &digest).unwrap();
    let pk = public_key_from(&seed).unwrap();
    assert!(!verify(&pk[..31].to_vec(), &digest, &sig));
    assert!(!verify(&pk, &digest, &sig[..63].to_vec()));
}
