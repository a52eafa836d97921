//! Binary data-item envelope assembly and its signable digest.
//!
//! The envelope is, in order: the 2-byte little-endian signature-type code
//! (2, the ed25519 scheme), the 64-byte signature, the 32-byte owner key, a
//! presence byte followed by 32 target bytes only when a target is present,
//! the same for the anchor, the 8-byte little-endian tag count and tag-block
//! length, the tag block, and the raw payload with no length prefix.
//!
//! The digest that gets signed is the deep hash of a fixed 8-element list:
//! `dataitem`, `1`, the signature type as decimal text, the owner, the
//! target bytes or an empty blob, the anchor bytes or an empty blob, the
//! tag block, and the payload.

use vstd::prelude::*;

use crate::decimal::dec_digits;
use crate::deep_hash::{blob_hash, deep_hash, deep_hash_fold, deep_hash_of, list_tag, sha384_of,
    DeepHashable};
use crate::signer::{ed25519_public_key_of, ed25519_signature_of, sign, SignerError};
use crate::tags::{encode_tags, tag_list_bytes, tags_bytes_view, tags_encodable, Tag};

verus! {

/// The signature-type code of the ed25519 key scheme used here.
pub const SIGNATURE_TYPE: u16 = 2;

/// The low `k` bytes of `n`, least significant first.
pub open spec fn le_bytes(n: nat, k: nat) -> Seq<u8>
    decreases k,
{
    if k == 0 {
        Seq::empty()
    } else {
        seq![(n % 256) as u8] + le_bytes(n / 256, (k - 1) as nat)
    }
}

/// The target or anchor bytes of the digest: the bytes themselves when
/// present, the empty blob when absent.
pub open spec fn opt_bytes(o: Option<Seq<u8>>) -> Seq<u8> {
    match o {
        Some(b) => b,
        None => Seq::empty(),
    }
}

/// The signable digest: the deep hash of the fixed 8-element list, written
/// out fold step by fold step.
pub open spec fn signable_digest_of(
    owner: Seq<u8>,
    target: Option<Seq<u8>>,
    anchor: Option<Seq<u8>>,
    tag_bytes: Seq<u8>,
    payload: Seq<u8>,
) -> Seq<u8> {
    let acc0 = sha384_of(list_tag(8));
    let acc1 = sha384_of(acc0 + blob_hash(seq![100u8, 97u8, 116u8, 97u8, 105u8, 116u8, 101u8,
        109u8]));  // "dataitem"
    let acc2 = sha384_of(acc1 + blob_hash(seq![49u8]));  // "1"
    let acc3 = sha384_of(acc2 + blob_hash(dec_digits(SIGNATURE_TYPE as nat)));
    let acc4 = sha384_of(acc3 + blob_hash(owner));
    let acc5 = sha384_of(acc4 + blob_hash(opt_bytes(target)));
    let acc6 = sha384_of(acc5 + blob_hash(opt_bytes(anchor)));
    let acc7 = sha384_of(acc6 + blob_hash(tag_bytes));
    sha384_of(acc7 + blob_hash(payload))
}

/// The assembled envelope bytes.
pub open spec fn data_item_bytes(
    signature: Seq<u8>,
    owner: Seq<u8>,
    target: Option<Seq<u8>>,
    anchor: Option<Seq<u8>>,
    tag_count: nat,
    tag_bytes: Seq<u8>,
    payload: Seq<u8>,
) -> Seq<u8> {
    le_bytes(SIGNATURE_TYPE as nat, 2) + signature + owner + (match target {
        Some(t) => seq![1u8] + t,
        None => seq![0u8],
    }) + (match anchor {
        Some(a) => seq![1u8] + a,
        None => seq![0u8],
    }) + le_bytes(tag_count, 8) + le_bytes(tag_bytes.len(), 8) + tag_bytes + payload
}

/// The view of an optional 32-byte field.
pub open spec fn opt_view(o: Option<Vec<u8>>) -> Option<Seq<u8>> {
    match o {
        Some(v) => Some(v@),
        None => None,
    }
}

/// Writes `n` as `k` little-endian bytes.
#[verifier::loop_isolation(false)]
fn u64_le_bytes(n: u64, k: usize) -> (r: Vec<u8>)
    requires
        k >= 8 || n < 0x10000,
    ensures
        r@ == le_bytes(n as nat, k as nat),
{
    let mut out: Vec<u8> = Vec::new();
    let mut v: u64 = n;
    let mut i: usize = 0;
    while i < k
        invariant
            i <= k,
            le_bytes(n as nat, k as nat) == out@ + le_bytes(v as nat, (k - i) as nat),
        decreases k - i,
    {
        proof {
            assert(le_bytes(v as nat, (k - i) as nat) == seq![(v % 256) as u8] + le_bytes(
                (v / 256) as nat,
                (k - i - 1) as nat,
            ));
            assert(out@ + (seq![(v % 256) as u8] + le_bytes((v / 256) as nat, (k - i - 1) as nat))
                =~= out@.push((v % 256) as u8) + le_bytes((v / 256) as nat, (k - i - 1) as nat));
        }
        out.push((v % 256) as u8);
        v = v / 256;
        i = i + 1;
    }
    proof {
        assert(le_bytes(v as nat, 0) =~= Seq::<u8>::empty());
        assert(out@ + Seq::<u8>::empty() =~= out@);
    }
    out
}

/// Computes the signable digest of the pre-signature fields: the deep hash
/// of the fixed 8-element list.
pub fn signable_digest(
    owner: &Vec<u8>,
    target: &Option<Vec<u8>>,
    anchor: &Option<Vec<u8>>,
    tag_bytes: &Vec<u8>,
    payload: &Vec<u8>,
) -> (r: Vec<u8>)
    ensures
        r@ == signable_digest_of(owner@, opt_view(*target), opt_view(*anchor), tag_bytes@,
            payload@),
        r@.len() == 48,
{
    let mut items: Vec<DeepHashable> = Vec::new();
    let mut word: Vec<u8> = Vec::new();
    word.push(100);
    word.push(97);
    word.push(116);
    word.push(97);
    word.push(105);
    word.push(116);
    word.push(101);
    word.push(109);
    items.push(DeepHashable::Blob(word));
    let mut one: Vec<u8> = Vec::new();
    one.push(49);
    items.push(DeepHashable::Blob(one));
    let mut two: Vec<u8> = Vec::new();
    two.push(50);
    items.push(DeepHashable::Blob(two));
    items.push(DeepHashable::Blob(owner.clone()));
    items.push(DeepHashable::Blob(match target {
        Some(t) => t.clone(),
        None => Vec::new(),
    }));
    items.push(DeepHashable::Blob(match anchor {
        Some(a) => a.clone(),
        None => Vec::new(),
    }));
    items.push(DeepHashable::Blob(tag_bytes.clone()));
    items.push(DeepHashable::Blob(payload.clone()));
    let ghost elems = items@;
    let node = DeepHashable::List(items);
    let digest = deep_hash(&node);
    proof {
        assert(elems[0] matches DeepHashable::Blob(b) && b@ =~= seq![100u8, 97u8, 116u8, 97u8,
            105u8, 116u8, 101u8, 109u8]);
        assert(elems[1] matches DeepHashable::Blob(b) && b@ =~= seq![49u8]);
        assert(elems[2] matches DeepHashable::Blob(b) && b@ =~= seq![50u8]);
        assert(elems[4] matches DeepHashable::Blob(b) && b@ =~= opt_bytes(opt_view(*target)));
        assert(elems[5] matches DeepHashable::Blob(b) && b@ =~= opt_bytes(opt_view(*anchor)));
        lemma_signable_fold(elems, owner@, opt_view(*target), opt_view(*anchor), tag_bytes@,
            payload@);
    }
    digest
}

/// Unrolls the deep-hash fold over the fixed 8-element list into the
/// step-by-step form of `signable_digest_of`.
proof fn lemma_signable_fold(
    elems: Seq<DeepHashable>,
    owner: Seq<u8>,
    target: Option<Seq<u8>>,
    anchor: Option<Seq<u8>>,
    tag_bytes: Seq<u8>,
    payload: Seq<u8>,
)
    requires
        elems.len() == 8,
        elems[0] matches DeepHashable::Blob(b) && b@ == seq![100u8, 97u8, 116u8, 97u8, 105u8,
            116u8, 101u8, 109u8],
        elems[1] matches DeepHashable::Blob(b) && b@ == seq![49u8],
        elems[2] matches DeepHashable::Blob(b) && b@ == seq![50u8],
        elems[3] matches DeepHashable::Blob(b) && b@ == owner,
        elems[4] matches DeepHashable::Blob(b) && b@ == opt_bytes(target),
        elems[5] matches DeepHashable::Blob(b) && b@ == opt_bytes(anchor),
        elems[6] matches DeepHashable::Blob(b) && b@ == tag_bytes,
        elems[7] matches DeepHashable::Blob(b) && b@ == payload,
    ensures
        deep_hash_fold(sha384_of(list_tag(8)), elems) == signable_digest_of(owner, target, anchor,
            tag_bytes, payload),
{
    reveal_with_fuel(deep_hash_fold, 10);
    assert(dec_digits(SIGNATURE_TYPE as nat) == seq![50u8]);
    assert(elems.skip(1).skip(1) =~= elems.skip(2));
    assert(elems.skip(2).skip(1) =~= elems.skip(3));
    assert(elems.skip(3).skip(1) =~= elems.skip(4));
    assert(elems.skip(4).skip(1) =~= elems.skip(5));
    assert(elems.skip(5).skip(1) =~= elems.skip(6));
    assert(elems.skip(6).skip(1) =~= elems.skip(7));
    assert(elems.skip(7).skip(1) =~= elems.skip(8));
    assert(elems.skip(8).len() == 0);
    assert(elems.skip(1)[0] == elems[1]);
    assert(elems.skip(2)[0] == elems[2]);
    assert(elems.skip(3)[0] == elems[3]);
    assert(elems.skip(4)[0] == elems[4]);
    assert(elems.skip(5)[0] == elems[5]);
    assert(elems.skip(6)[0] == elems[6]);
    assert(elems.skip(7)[0] == elems[7]);
}

/// Assembles the envelope from its already-signed fields.
pub fn assemble_data_item(
    signature: &Vec<u8>,
    owner: &Vec<u8>,
    target: &Option<Vec<u8>>,
    anchor: &Option<Vec<u8>>,
    tag_count: u64,
    tag_bytes: &Vec<u8>,
    payload: &Vec<u8>,
) -> (r: Vec<u8>)
    requires
        signature@.len() == 64,
        owner@.len() == 32,
    ensures
        r@ == data_item_bytes(signature@, owner@, opt_view(*target), opt_view(*anchor),
            tag_count as nat, tag_bytes@, payload@),
{
    let mut out = u64_le_bytes(SIGNATURE_TYPE as u64, 2);
    let mut sig = signature.clone();
    out.append(&mut sig);
    let mut own = owner.clone();
    out.append(&mut own);
    match target {
        Some(t) => {
            out.push(1);
            let mut tb = t.clone();
            out.append(&mut tb);
        },
        None => {
            out.push(0);
        },
    }
    match anchor {
        Some(a) => {
            out.push(1);
            let mut ab = a.clone();
            out.append(&mut ab);
        },
        None => {
            out.push(0);
        },
    }
    let mut cnt = u64_le_bytes(tag_count, 8);
    out.append(&mut cnt);
    let mut tlen = u64_le_bytes(tag_bytes.len() as u64, 8);
    out.append(&mut tlen);
    let mut tb = tag_bytes.clone();
    out.append(&mut tb);
    let mut pl = payload.clone();
    out.append(&mut pl);
    proof {
        assert(out@ =~= data_item_bytes(signature@, owner@, opt_view(*target), opt_view(*anchor),
            tag_count as nat, tag_bytes@, payload@));
    }
    out
}

/// The envelope that `build_data_item` produces for a seed, tag list and
/// payload: the owner is the seed's public key, the signature signs the
/// digest of the pre-signature fields, target and anchor are absent.
pub open spec fn built_data_item_bytes(seed: Seq<u8>, tags: Seq<Tag>, payload: Seq<u8>) -> Seq<
    u8,
> {
    let owner = ed25519_public_key_of(seed);
    let tag_bytes = tag_list_bytes(tags_bytes_view(tags));
    let digest = signable_digest_of(owner, None, None, tag_bytes, payload);
    let signature = ed25519_signature_of(seed, digest);
    data_item_bytes(signature, owner, None, None, tags.len(), tag_bytes, payload)
}

/// Builds and signs a complete data item over `(payload, tags)` with the
/// keypair derived from a 32-byte seed: serialize the tags, deep-hash the
/// pre-signature fields, sign the digest, assemble the envelope.
///
/// Every 32-byte seed succeeds; any other seed length fails with
/// `SigningFailure` carrying that length.
pub fn build_data_item(seed: &Vec<u8>, tags: &Vec<Tag>, payload: &Vec<u8>) -> (r: Result<
    Vec<u8>,
    SignerError,
>)
    requires
        tags_encodable(tags_bytes_view(tags@)),
    ensures
        match r {
            Ok(item) => {
                &&& seed@.len() == 32
                &&& item@ == built_data_item_bytes(seed@, tags@, payload@)
            },
            Err(e) => {
                &&& seed@.len() != 32
                &&& e == SignerError::SigningFailure(seed@.len() as usize)
            },
        },
{
    let owner = match crate::signer::public_key_from(seed) {
        Ok(pk) => pk,
        Err(e) => {
            return Err(e);
        },
    };
    let tag_bytes = encode_tags(tags);
    let digest = signable_digest(&owner, &None, &None, &tag_bytes, payload);
    let signature = match sign(seed, &digest) {
        Ok(s) => s,
        Err(e) => {
            return Err(e);
        },
    };
    Ok(assemble_data_item(&signature, &owner, &None, &None, tags.len() as u64, &tag_bytes,
        payload))
}

} // verus!
