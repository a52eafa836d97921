//! Upload client logic.
//!
//! An upload builds a fresh ephemeral keypair, assembles and signs a data
//! item over the payload and tags, and POSTs the envelope to the fixed
//! endpoint as an opaque binary body. The network call itself lives outside
//! this crate; here stand the two halves around it: building the envelope,
//! and interpreting the response. A success is any 2xx status with a JSON
//! body carrying an `id` string, which turns into a retrieval URL by
//! appending the identifier to the fixed gateway prefix.

use vstd::prelude::*;

use crate::data_item::{build_data_item, built_data_item_bytes};
use crate::signer::{generate_seed, SignerError};
use crate::tags::{tags_bytes_view, tags_encodable, Tag};
use vstd::string::is_ascii;
use vstd::string::is_ascii_spec_bytes;
use vstd::string::StrSliceExecFns;
use vstd::string::StringExecFns;

verus! {

/// Why an upload failed: the remote rejected it (status and body), the
/// response was not a JSON object with an `id` string, the network call
/// itself failed (the transport's message), or no signing key could be
/// made (the offending seed length, zero when no entropy was available).
#[derive(Clone, Debug, PartialEq, Eq)]
pub enum UploadError {
    RemoteRejected(u16, String),
    MalformedResponse,
    NetworkFailure(String),
    SigningFailure(usize),
}

/// A successful upload: the content identifier the service returned, and
/// the retrieval URL derived from it.
#[derive(Clone, Debug, PartialEq, Eq)]
pub struct UploadResult {
    pub id: String,
    pub url: String,
}

/// The string at top-level key `key` of the JSON text `body`, or `None`
/// when the body is not JSON or the key is missing or not a string. Fixed
/// by the JSON grammar: a function of the two texts alone.
pub uninterp spec fn json_string_field(body: Seq<char>, key: Seq<char>) -> Option<Seq<char>>;

/// Relies on `serde_json::from_str::<Value>`, `Value::get` and
/// `Value::as_str`: parses the body as JSON and returns the string at the
/// given top-level key, if there is one.
#[verifier::external_body]
fn json_top_level_string(body: &str, key: &str) -> (r: Option<String>)
    ensures
        match r {
            Some(s) => json_string_field(body@, key@) == Some(s@),
            None => json_string_field(body@, key@) is None,
        },
{
    match serde_json::from_str::<serde_json::Value>(body) {
        Ok(v) => match v.get(key) {
            Some(f) => match f.as_str() {
                Some(s) => Some(s.to_string()),
                None => None,
            },
            None => None,
        },
        Err(_) => None,
    }
}

/// The fixed endpoint that envelopes are POSTed to.
pub fn upload_endpoint() -> (r: String)
    ensures
        r@ == ("https://devnet.irys.xyz/tx/solana")@,
{
    String::from_str("https://devnet.irys.xyz/tx/solana")
}

/// The retrieval URL of a content identifier: the fixed gateway prefix with
/// the identifier as the final path segment.
pub fn gateway_url(id: &str) -> (r: String)
    ensures
        r@ == ("https://gateway.irys.xyz/")@ + id@,
{
    let mut url = String::from_str("https://gateway.irys.xyz/");
    url.append(id);
    url
}

/// Builds the signed envelope for one upload under a fresh ephemeral
/// keypair. Some 32-byte seed signs it; which one is never exposed, and the
/// keypair is discarded with this call. Fails only when the random source
/// yields no seed.
pub fn build_upload_envelope(payload: &Vec<u8>, tags: &Vec<Tag>) -> (r: Result<
    Vec<u8>,
    UploadError,
>)
    requires
        tags_encodable(tags_bytes_view(tags@)),
    ensures
        match r {
            Ok(envelope) => exists|seed: Seq<u8>|
                seed.len() == 32 && envelope@ == #[trigger] built_data_item_bytes(seed, tags@,
                    payload@),
            Err(e) => e == UploadError::SigningFailure(0usize),
        },
{
    let seed = match generate_seed() {
        Ok(s) => s,
        Err(SignerError::SigningFailure(_)) => {
            return Err(UploadError::SigningFailure(0));
        },
    };
    match build_data_item(&seed, tags, payload) {
        Ok(envelope) => {
            proof {
                assert(seed@.len() == 32 && envelope@ == built_data_item_bytes(seed@, tags@,
                    payload@));
            }
            Ok(envelope)
        },
        Err(_) => {
            proof {
                assert(false);
            }
            Err(UploadError::SigningFailure(0))
        },
    }
}

/// The one-element tag list that a single-call upload carries: its
/// `Content-Type`.
pub fn content_type_tags(content_type: &str) -> (r: Vec<Tag>)
    ensures
        r@.len() == 1,
        r@[0].name@ == ("Content-Type")@,
        r@[0].value@ == content_type@,
{
    let mut tags: Vec<Tag> = Vec::new();
    tags.push(Tag { name: String::from_str("Content-Type"), value: String::from_str(content_type) });
    tags
}

/// Builds the signed envelope of the simpler single-call path: text content
/// under one `Content-Type` tag, a fresh ephemeral keypair.
pub fn build_text_upload_envelope(content: &str, content_type: &str) -> (r: Result<
    Vec<u8>,
    UploadError,
>)
    requires
        vstd::utf8::encode_utf8(content_type@).len() <= u64::MAX / 2,
    ensures
        match r {
            Ok(envelope) => exists|seed: Seq<u8>, tags: Seq<Tag>|
                {
                    &&& seed.len() == 32
                    &&& tags.len() == 1
                    &&& tags[0].name@ == ("Content-Type")@
                    &&& tags[0].value@ == content_type@
                    &&& envelope@ == #[trigger] built_data_item_bytes(seed, tags,
                        vstd::utf8::encode_utf8(content@))
                },
            Err(e) => e == UploadError::SigningFailure(0usize),
        },
{
    let tags = content_type_tags(content_type);
    let payload = content.as_bytes_vec();
    proof {
        reveal_strlit("Content-Type");
        assert(("Content-Type")@.len() == 12);
        is_ascii_spec_bytes("Content-Type");
        assert(is_ascii("Content-Type"));
        assert(tags_bytes_view(tags@)[0] == tags@[0].bytes_view());
    }
    match build_upload_envelope(&payload, &tags) {
        Ok(envelope) => {
            proof {
                let seed = choose|seed: Seq<u8>|
                    seed.len() == 32 && envelope@ == #[trigger] built_data_item_bytes(seed, tags@,
                        payload@);
                assert(seed.len() == 32 && envelope@ == built_data_item_bytes(seed, tags@,
                    payload@));
            }
            Ok(envelope)
        },
        Err(e) => Err(e),
    }
}

/// Interprets the transport's answer to one POST of an envelope.
///
/// A non-2xx status is rejected with `RemoteRejected` carrying the status
/// and the body; a 2xx body without a top-level `id` string is
/// `MalformedResponse`; otherwise the identifier and its retrieval URL are
/// returned.
pub fn parse_upload_response(status: u16, body: &str) -> (r: Result<UploadResult, UploadError>)
    ensures
        match r {
            Ok(res) => {
                &&& 200 <= status < 300
                &&& json_string_field(body@, ("id")@) == Some(res.id@)
                &&& res.url@ == ("https://gateway.irys.xyz/")@ + res.id@
            },
            Err(UploadError::RemoteRejected(st, b)) => {
                &&& !(200 <= status < 300)
                &&& st == status
                &&& b@ == body@
            },
            Err(UploadError::MalformedResponse) => {
                &&& 200 <= status < 300
                &&& json_string_field(body@, ("id")@) is None
            },
            Err(_) => false,
        },
{
    if status < 200 || status >= 300 {
        return Err(UploadError::RemoteRejected(status, String::from_str(body)));
    }
    match json_top_level_string(body, "id") {
        Some(id) => {
            let url = gateway_url(id.as_str());
            Ok(UploadResult { id, url })
        },
        None => Err(UploadError::MalformedResponse),
    }
}

} // verus!
