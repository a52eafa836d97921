//! Ed25519 signing over a 32-byte seed.
//!
//! A signing key is derived from exactly 32 seed bytes; signing a digest
//! yields a 64-byte signature that the seed's public key verifies. The
//! scheme is deterministic: seed and message fix the signature.

use vstd::prelude::*;

use ed25519_dalek::Signer;
use ed25519_dalek::Verifier;

verus! {

/// Why a signing operation failed: the seed had the wrong length (its
/// actual length is carried).
#[derive(Clone, Copy, Debug, PartialEq, Eq, Structural)]
pub enum SignerError {
    SigningFailure(usize),
}

/// The 32-byte public key derived from a 32-byte seed. Fixed by the key
/// scheme; a function of the seed alone.
pub uninterp spec fn ed25519_public_key_of(seed: Seq<u8>) -> Seq<u8>;

/// The 64-byte signature of `msg` under the key derived from `seed`. The
/// scheme signs deterministically, so this is a function of the two alone.
pub uninterp spec fn ed25519_signature_of(seed: Seq<u8>, msg: Seq<u8>) -> Seq<u8>;

/// Whether `sig` is a valid signature of `msg` under public key `pk`.
/// Verification is a function of the three byte strings alone.
pub uninterp spec fn ed25519_verifies(pk: Seq<u8>, msg: Seq<u8>, sig: Seq<u8>) -> bool;

/// Relies on `ed25519_dalek::SigningKey::from_bytes` and
/// `VerifyingKey::to_bytes`: the public key is derived from the seed alone
/// and is 32 bytes long.
#[verifier::external_body]
fn ed25519_public_key(seed: &Vec<u8>) -> (r: Vec<u8>)
    requires
        seed@.len() == 32,
    ensures
        r@ == ed25519_public_key_of(seed@),
        r@.len() == 32,
{
    let mut a = [0u8; 32];
    a.copy_from_slice(seed.as_slice());
    ed25519_dalek::SigningKey::from_bytes(&a).verifying_key().to_bytes().to_vec()
}

/// Relies on `ed25519_dalek::SigningKey::from_bytes` and `Signer::sign`:
/// signing is deterministic in seed and message, yields 64 bytes, and the
/// seed's public key verifies the result.
#[verifier::external_body]
fn ed25519_sign(seed: &Vec<u8>, msg: &Vec<u8>) -> (r: Vec<u8>)
    requires
        seed@.len() == 32,
    ensures
        r@ == ed25519_signature_of(seed@, msg@),
        r@.len() == 64,
        ed25519_verifies(ed25519_public_key_of(seed@), msg@, r@),
{
    let mut a = [0u8; 32];
    a.copy_from_slice(seed.as_slice());
    ed25519_dalek::SigningKey::from_bytes(&a).sign(msg.as_slice()).to_bytes().to_vec()
}

/// Relies on `ed25519_dalek::VerifyingKey::from_bytes` and
/// `Verifier::verify`: acceptance is a function of key, message and
/// signature bytes alone; an undecodable key verifies nothing.
#[verifier::external_body]
fn ed25519_verify(pk: &Vec<u8>, msg: &Vec<u8>, sig: &Vec<u8>) -> (r: bool)
    requires
        pk@.len() == 32,
        sig@.len() == 64,
    ensures
        r == ed25519_verifies(pk@, msg@, sig@),
{
    let mut pka = [0u8; 32];
    pka.copy_from_slice(pk.as_slice());
    let mut siga = [0u8; 64];
    siga.copy_from_slice(sig.as_slice());
    match ed25519_dalek::VerifyingKey::from_bytes(&pka) {
        Ok(key) => key.verify(msg.as_slice(), &ed25519_dalek::Signature::from_bytes(&siga)).is_ok(),
        Err(_) => false,
    }
}

/// Relies on `getrandom::fill`: fills 32 bytes from the operating system's
/// random source. Nothing is promised of the values; failure reports `None`.
#[verifier::external_body]
fn os_random_seed() -> (r: Option<Vec<u8>>)
    ensures
        r matches Some(v) ==> v@.len() == 32,
{
    let mut buf = [0u8; 32];
    match getrandom::fill(&mut buf) {
        Ok(()) => Some(buf.to_vec()),
        Err(_) => None,
    }
}

/// Signs a 48-byte digest with the key derived from a 32-byte seed.
///
/// A seed of any other length is rejected with `SigningFailure` carrying
/// that length; a 32-byte seed always signs, deterministically, and the
/// seed's public key verifies the signature.
pub fn sign(seed: &Vec<u8>, digest: &Vec<u8>) -> (r: Result<Vec<u8>, SignerError>)
    ensures
        match r {
            Ok(sig) => {
                &&& seed@.len() == 32
                &&& sig@ == ed25519_signature_of(seed@, digest@)
                &&& sig@.len() == 64
                &&& ed25519_verifies(ed25519_public_key_of(seed@), digest@, sig@)
            },
            Err(e) => {
                &&& seed@.len() != 32
                &&& e == SignerError::SigningFailure(seed@.len() as usize)
            },
        },
{
    if seed.len() != 32 {
        return Err(SignerError::SigningFailure(seed.len()));
    }
    Ok(ed25519_sign(seed, digest))
}

/// The public key of the keypair derived from a 32-byte seed; any other
/// seed length is rejected with `SigningFailure` carrying that length.
pub fn public_key_from(seed: &Vec<u8>) -> (r: Result<Vec<u8>, SignerError>)
    ensures
        match r {
            Ok(pk) => {
                &&& seed@.len() == 32
                &&& pk@ == ed25519_public_key_of(seed@)
                &&& pk@.len() == 32
            },
            Err(e) => {
                &&& seed@.len() != 32
                &&& e == SignerError::SigningFailure(seed@.len() as usize)
            },
        },
{
    if seed.len() != 32 {
        return Err(SignerError::SigningFailure(seed.len()));
    }
    Ok(ed25519_public_key(seed))
}

/// Checks a signature: true exactly when the key and signature have their
/// scheme lengths and the signature verifies the message under the key.
pub fn verify(pk: &Vec<u8>, msg: &Vec<u8>, sig: &Vec<u8>) -> (r: bool)
    ensures
        r == (pk@.len() == 32 && sig@.len() == 64 && ed25519_verifies(pk@, msg@, sig@)),
{
    if pk.len() != 32 || sig.len() != 64 {
        return false;
    }
    ed25519_verify(pk, msg, sig)
}

/// Draws a fresh 32-byte seed from the operating system's random source;
/// fails with `SigningFailure` when no entropy can be drawn.
pub fn generate_seed() -> (r: Result<Vec<u8>, SignerError>)
    ensures
        r matches Ok(seed) ==> seed@.len() == 32,
{
    match os_random_seed() {
        Some(seed) => Ok(seed),
        None => Err(SignerError::SigningFailure(0)),
    }
}

} // verus!
