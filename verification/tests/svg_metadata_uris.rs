use mojo_arena::svg::{
    base64_encode, build_character_metadata_uri, build_collection_metadata_uri,
    build_profile_metadata_uri, generate_character_svg,
};

#[test]
fn base64_reference_vectors() {
    for (input, expected) in [
        (&b""[..], ""),
        (b"f", "Zg=="),
        (b"fo", "Zm8="),
        (b"foo", "Zm9v"),
        (b"foob", "Zm9vYg=="),
        (b"fooba", "Zm9vYmE="),
        (b"foobar", "Zm9vYmFy"),
        (b"hello", "aGVsbG8="),
    ] {
        assert_eq!(base64_encode(input), expected);
    }
}

#[test]
fn base64_of_all_byte_values() {
    let all: Vec<u8> = (0u8..=255).collect();
    let encoded = base64_encode(&all);
    assert_eq!(encoded.len(), 344);
    assert!(encoded.chars().all(|c| c.is_ascii_alphanumeric() || "+/=".contains(c)));
}

#[test]
fn character_svg_has_exact_shape() {
    let svg = generate_character_svg(2, "Thor");
    assert!(svg.starts_with(
        "<svg xmlns=\"http://www.w3.org/2000/svg\" width=\"120\" height=\"160\" viewBox=\"0 0 120 160\">"
    ));
    assert!(svg.ends_with(">Thor</text></svg>"));
    // Hue 120 everywhere the colour appears: seven strokes and fills.
    assert_eq!(svg.matches("hsl(120,80%,60%)").count(), 7);
    assert!(svg.contains("fill=\"rgb(10,10,10)\""));
}

#[test]
fn character_metadata_uri_embeds_badge() {
    let uri = build_character_metadata_uri(1, "Odin", "Allfather of wisdom");
    let expected_svg = "<svg xmlns=\"http://www.w3.org/2000/svg\" width=\"32\" height=\"32\">\
        <circle cx=\"16\" cy=\"16\" r=\"15\" fill=\"hsl(60,80%,60%)\"/>\
        <text x=\"16\" y=\"22\" text-anchor=\"middle\" fill=\"#fff\" font-size=\"18\">O</text></svg>";
    let expected_img = format!("data:image/svg+xml;base64,{}", base64_encode(expected_svg.as_bytes()));
    let expected_json = format!("{{\"name\":\"Odin\",\"image\":\"{}\"}}", expected_img);
    let expected = format!("data:application/json;base64,{}", base64_encode(expected_json.as_bytes()));
    assert_eq!(uri, expected);
}

#[test]
fn empty_name_badge_uses_question_mark() {
    let uri = build_character_metadata_uri(0, "", "");
    let expected_svg = "<svg xmlns=\"http://www.w3.org/2000/svg\" width=\"32\" height=\"32\">\
        <circle cx=\"16\" cy=\"16\" r=\"15\" fill=\"hsl(0,80%,60%)\"/>\
        <text x=\"16\" y=\"22\" text-anchor=\"middle\" fill=\"#fff\" font-size=\"18\">?</text></svg>";
    let expected_img = format!("data:image/svg+xml;base64,{}", base64_encode(expected_svg.as_bytes()));
    let expected_json = format!("{{\"name\":\"\",\"image\":\"{}\"}}", expected_img);
    let expected = format!("data:application/json;base64,{}", base64_encode(expected_json.as_bytes()));
    assert_eq!(uri, expected);
}

#[test]
fn collection_and_profile_uris_wrap_minimal_json() {
    let expected_json = "{\"name\":\"Mojo Arena Characters\",\"image\":\"\"}";
    let expected = format!(
        "data:application/json;base64,{}",
        base64_encode(expected_json.as_bytes())
    );
    assert_eq!(build_collection_metadata_uri("Mojo Arena Characters"), expected);
    assert_eq!(build_profile_metadata_uri("Mojo Arena Characters"), expected);
}

#[test]
fn data_uris_are_ascii_and_small() {
    let uri = build_character_metadata_uri(3, "Loki", "Trickster shapeshifter");
    assert!(uri.is_ascii());
    assert!(uri.len() < 600);
}
