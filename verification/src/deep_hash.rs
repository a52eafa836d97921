//! Recursive deep hash.
//!
//! A value is either a blob of bytes or an ordered list of values. A blob
//! hashes to `H(H(tag) || H(bytes))` with `tag = "blob" || decimal length`;
//! a list starts from `H("list" || decimal count)` and absorbs
//! `H(acc || deepHash(item))` for each item in order. `H` is SHA-384, whose
//! digests are 48 bytes long.

use vstd::prelude::*;

use sha2::Digest;

use crate::decimal::dec_digits;
use crate::decimal::u64_dec_bytes;

verus! {

/// A tree of byte blobs and nested lists, the domain of the deep hash.
pub enum DeepHashable {
    Blob(Vec<u8>),
    List(Vec<DeepHashable>),
}

/// The SHA-384 digest of a byte string. Its value is fixed by the outside
/// hash function; nothing further is assumed about it here.
pub uninterp spec fn sha384_of(data: Seq<u8>) -> Seq<u8>;

/// Relies on `sha2::Sha384`: the digest is a function of the input bytes
/// alone, and is 48 bytes long.
#[verifier::external_body]
fn sha384(data: &Vec<u8>) -> (r: Vec<u8>)
    ensures
        r@ == sha384_of(data@),
        r@.len() == 48,
{
    sha2::Sha384::digest(data.as_slice()).to_vec()
}

/// The blob tag: ASCII `blob` then the decimal byte length.
pub open spec fn blob_tag(len: nat) -> Seq<u8> {
    seq![98u8, 108u8, 111u8, 98u8] + dec_digits(len)
}

/// The list tag: ASCII `list` then the decimal item count.
pub open spec fn list_tag(count: nat) -> Seq<u8> {
    seq![108u8, 105u8, 115u8, 116u8] + dec_digits(count)
}

/// The deep hash of a blob's bytes.
pub open spec fn blob_hash(b: Seq<u8>) -> Seq<u8> {
    sha384_of(sha384_of(blob_tag(b.len())) + sha384_of(b))
}

/// The deep hash of a value.
pub open spec fn deep_hash_of(v: DeepHashable) -> Seq<u8>
    decreases v,
{
    match v {
        DeepHashable::Blob(b) => blob_hash(b@),
        DeepHashable::List(items) => deep_hash_fold(sha384_of(list_tag(items@.len())), items@),
    }
}

/// Folds the items of a list into the accumulator, in order.
pub open spec fn deep_hash_fold(acc: Seq<u8>, items: Seq<DeepHashable>) -> Seq<u8>
    decreases items,
{
    if items.len() == 0 {
        acc
    } else {
        deep_hash_fold(sha384_of(acc + deep_hash_of(items[0])), items.skip(1))
    }
}

/// Law: the deep hash is deterministic. It is a function of the value's
/// structure alone, so structurally equal inputs hash alike; `deep_hash`
/// returns this function of its argument on every call.
pub proof fn lemma_deep_hash_deterministic(a: DeepHashable, b: DeepHashable)
    requires
        a == b,
    ensures
        deep_hash_of(a) == deep_hash_of(b),
{
}

/// Computes the deep hash of a value.
#[verifier::loop_isolation(false)]
pub fn deep_hash(v: &DeepHashable) -> (r: Vec<u8>)
    ensures
        r@ == deep_hash_of(*v),
        r@.len() == 48,
    decreases *v,
{
    match v {
        DeepHashable::Blob(b) => {
            let mut tag: Vec<u8> = Vec::new();
            tag.push(98);
            tag.push(108);
            tag.push(111);
            tag.push(98);
            let mut dec = u64_dec_bytes(b.len() as u64);
            tag.append(&mut dec);
            proof {
                assert(tag@ =~= blob_tag(b@.len()));
            }
            let mut buf = sha384(&tag);
            let mut bh = sha384(b);
            buf.append(&mut bh);
            sha384(&buf)
        },
        DeepHashable::List(items) => {
            let mut tag: Vec<u8> = Vec::new();
            tag.push(108);
            tag.push(105);
            tag.push(115);
            tag.push(116);
            let mut dec = u64_dec_bytes(items.len() as u64);
            tag.append(&mut dec);
            proof {
                assert(tag@ =~= list_tag(items@.len()));
            }
            let mut acc = sha384(&tag);
            proof {
                assert(items@.skip(0) =~= items@);
            }
            let mut i: usize = 0;
            while i < items.len()
                invariant
                    acc@.len() == 48,
                    i <= items@.len(),
                    deep_hash_fold(acc@, items@.skip(i as int)) == deep_hash_of(*v),
                decreases items@.len() - i,
            {
                proof {
                    assert(decreases_to!(*v => items@[i as int]));
                }
                let ih = deep_hash(&items[i]);
                let mut buf = acc;
                let mut rest = ih;
                buf.append(&mut rest);
                proof {
                    assert(items@.skip(i as int)[0] == items@[i as int]);
                    assert(items@.skip(i as int).skip(1) =~= items@.skip(i + 1));
                }
                acc = sha384(&buf);
                i = i + 1;
            }
            proof {
                assert(items@.skip(items@.len() as int) =~= Seq::<DeepHashable>::empty());
            }
            acc
        },
    }
}

} // verus!
