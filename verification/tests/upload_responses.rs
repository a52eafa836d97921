use mojo_arena::upload::{
    build_upload_envelope, gateway_url, parse_upload_response, upload_endpoint, UploadError,
};
use mojo_arena::tags::Tag;

#[test]
fn success_yields_identifier_and_url() {
    let r = parse_upload_response(200, "{\"id\":\"abc123\"}").unwrap();
    assert_eq!(r.id, "abc123");
    assert_eq!(r.url, "https://gateway.irys.xyz/abc123");
}

#[test]
fn any_2xx_status_counts_as_success() {
    for status in [200u16, 201, 204, 299] {
        assert!(parse_upload_response(status, "{\"id\":\"x\"}").is_ok());
    }
}

#[test]
fn non_2xx_is_remote_rejection_with_body() {
    for status in [199u16, 300, 400, 404, 500] {
        match parse_upload_response(status, "try again later") {
            Err(UploadError::RemoteRejected(st, body)) => {
                assert_eq!(st, status);
                assert_eq!(body, "try again later");
            }
            other => panic!("expected RemoteRejected, got {:?}", other),
        }
    }
}

#[test]
fn unparseable_body_is_malformed() {
    for body in ["", "not json", "[1,2,3]", "{\"id\":", "{\"id\":5}", "{\"id\":null}", "{}"] {
        assert_eq!(parse_upload_response(200, body), Err(UploadError::MalformedResponse));
    }
}

#[test]
fn identifier_amid_other_fields_is_found() {
    let r = parse_upload_response(200, "{\"timestamp\":1,\"id\":\"tx9\",\"public\":\"k\"}").unwrap();
    assert_eq!(r.id, "tx9");
    assert_eq!(r.url, "https://gateway.irys.xyz/tx9");
}

#[test]
fn fixed_endpoint_and_gateway_template() {
    assert_eq!(upload_endpoint(), "https://devnet.irys.xyz/tx/solana");
    assert_eq!(gateway_url("some-id"), "https://gateway.irys.xyz/some-id");
}

#[test]
fn envelopes_use_fresh_keypairs() {
    let tags = vec![Tag { name: "Content-Type".to_string(), value: "text/plain".to_string() }];
    let payload = b"hello".to_vec();
    let a = build_upload_envelope(&payload, &tags).unwrap();
    let b = build_upload_envelope(&payload, &tags).unwrap();
    // Same deterministic fields, different ephemeral owners.
    assert_eq!(a.len(), b.len());
    assert_eq!(a[..2], b[..2]);
    assert_eq!(a[2 + 64 + 32..], b[2 + 64 + 32..]);
    assert_ne!(a[66..98], b[66..98]);
}
