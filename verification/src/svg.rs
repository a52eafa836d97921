//! Inline SVG artwork and data-URI metadata.
//!
//! On-chain metadata URIs are kept tiny: a small SVG badge or an empty
//! image, wrapped in a minimal JSON object and embedded as a base64 data
//! URI. The full stick-figure SVG is only rendered client-side. None of
//! these JSON builders escape their text; they reproduce their inputs
//! verbatim.

use vstd::prelude::*;
use vstd::string::StrSliceExecFns;
use vstd::string::StringExecFns;
use vstd::string::StringSliceAdditionalSpecFns;
use vstd::utf8::encode_utf8;

use crate::decimal::{dec_chars, u64_dec_string};
use crate::text::{ascii_bytes_to_string, push_char};

verus! {

/// The base64 alphabet byte of a 6-bit value.
pub open spec fn b64_byte(i: int) -> u8 {
    if i < 26 {
        (65 + i) as u8  // 'A' ..= 'Z'
    } else if i < 52 {
        (97 + (i - 26)) as u8  // 'a' ..= 'z'
    } else if i < 62 {
        (48 + (i - 52)) as u8  // '0' ..= '9'
    } else if i == 62 {
        43u8  // '+'
    } else {
        47u8  // '/'
    }
}

/// The base64 encoding of a byte string, three bytes to four characters,
/// the last group padded with `=` (byte 61).
pub open spec fn base64_bytes(s: Seq<u8>) -> Seq<u8>
    decreases s.len(),
{
    if s.len() == 0 {
        Seq::empty()
    } else if s.len() == 1 {
        seq![b64_byte((s[0] / 4) as int), b64_byte(((s[0] % 4) * 16) as int), 61u8, 61u8]
    } else if s.len() == 2 {
        seq![
            b64_byte((s[0] / 4) as int),
            b64_byte(((s[0] % 4) * 16 + s[1] / 16) as int),
            b64_byte(((s[1] % 16) * 4) as int),
            61u8,
        ]
    } else {
        seq![
            b64_byte((s[0] / 4) as int),
            b64_byte(((s[0] % 4) * 16 + s[1] / 16) as int),
            b64_byte(((s[1] % 16) * 4 + s[2] / 64) as int),
            b64_byte((s[2] % 64) as int),
        ] + base64_bytes(s.skip(3))
    }
}

/// The base64 encoding as text.
pub open spec fn base64_chars(s: Seq<u8>) -> Seq<char> {
    base64_bytes(s).map_values(|b: u8| b as char)
}

/// Every base64 output byte is ASCII.
proof fn lemma_base64_ascii(s: Seq<u8>)
    ensures
        forall|i: int| 0 <= i < base64_bytes(s).len() ==> #[trigger] base64_bytes(s)[i] < 128,
    decreases s.len(),
{
    if s.len() >= 3 {
        lemma_base64_ascii(s.skip(3));
        assert(forall|i: int|
            4 <= i < base64_bytes(s).len() ==> base64_bytes(s)[i] == base64_bytes(s.skip(3))[i
                - 4]);
    }
}

/// The base64 alphabet byte, executable.
fn b64_byte_exec(i: u8) -> (r: u8)
    requires
        i < 64,
    ensures
        r == b64_byte(i as int),
{
    if i < 26 {
        65 + i
    } else if i < 52 {
        97 + (i - 26)
    } else if i < 62 {
        48 + (i - 52)
    } else if i == 62 {
        43
    } else {
        47
    }
}

/// Encodes bytes as base64 text.
#[verifier::loop_isolation(false)]
pub fn base64_encode(data: &[u8]) -> (r: String)
    ensures
        r@ == base64_chars(data@),
{
    let mut out: Vec<u8> = Vec::new();
    let mut i: usize = 0;
    proof {
        assert(data@.skip(0) =~= data@);
    }
    while data.len() - i >= 3
        invariant
            i <= data@.len(),
            base64_bytes(data@) == out@ + base64_bytes(data@.skip(i as int)),
        decreases data@.len() - i,
    {
        let ghost prev = out@;
        let b0 = data[i];
        let b1 = data[i + 1];
        let b2 = data[i + 2];
        proof {
            assert(data@.skip(i as int)[0] == data@[i as int]);
            assert(data@.skip(i as int)[1] == data@[i + 1]);
            assert(data@.skip(i as int)[2] == data@[i + 2]);
            assert(data@.skip(i as int).skip(3) =~= data@.skip(i + 3));
        }
        out.push(b64_byte_exec(b0 / 4));
        out.push(b64_byte_exec((b0 % 4) * 16 + b1 / 16));
        out.push(b64_byte_exec((b1 % 16) * 4 + b2 / 64));
        out.push(b64_byte_exec(b2 % 64));
        proof {
            let chunk = seq![
                b64_byte((b0 / 4) as int),
                b64_byte(((b0 % 4) * 16 + b1 / 16) as int),
                b64_byte(((b1 % 16) * 4 + b2 / 64) as int),
                b64_byte((b2 % 64) as int),
            ];
            let rest = base64_bytes(data@.skip(i + 3));
            assert(base64_bytes(data@.skip(i as int)) == chunk + rest);
            assert(out@ =~= prev + chunk);
            assert(prev + (chunk + rest) =~= (prev + chunk) + rest);
        }
        i = i + 3;
    }
    if data.len() - i == 1 {
        let ghost prev = out@;
        let b0 = data[i];
        proof {
            assert(data@.skip(i as int)[0] == data@[i as int]);
            assert(data@.skip(i as int).len() == 1);
        }
        out.push(b64_byte_exec(b0 / 4));
        out.push(b64_byte_exec((b0 % 4) * 16));
        out.push(61);
        out.push(61);
    } else if data.len() - i == 2 {
        let ghost prev = out@;
        let b0 = data[i];
        let b1 = data[i + 1];
        proof {
            assert(data@.skip(i as int)[0] == data@[i as int]);
            assert(data@.skip(i as int)[1] == data@[i + 1]);
            assert(data@.skip(i as int).len() == 2);
        }
        out.push(b64_byte_exec(b0 / 4));
        out.push(b64_byte_exec((b0 % 4) * 16 + b1 / 16));
        out.push(b64_byte_exec((b1 % 16) * 4));
        out.push(61);
    } else {
        proof {
            assert(data@.skip(i as int).len() == 0);
        }
    }
    proof {
        assert(out@ =~= base64_bytes(data@));
        lemma_base64_ascii(data@);
    }
    let r = ascii_bytes_to_string(out);
    proof {
        assert(r@ =~= base64_chars(data@));
    }
    r
}

/// The colour of a character: an HSL triple parameterized by its hue.
pub open spec fn hsl_color(hue: nat) -> Seq<char> {
    ("hsl(")@ + dec_chars(hue) + (",80%,60%)")@
}

/// The full stick-figure SVG of a character: head, spine, arms, legs and
/// the name caption, drawn in the character's colour on the dark backdrop.
pub open spec fn character_svg(hue: nat, name: Seq<char>) -> Seq<char> {
    let c = hsl_color(hue);
    ("<svg xmlns=\"http://www.w3.org/2000/svg\" width=\"120\" height=\"160\" viewBox=\"0 0 120 160\"><rect width=\"120\" height=\"160\" fill=\"rgb(10,10,10)\"/><circle cx=\"60\" cy=\"35\" r=\"16\" fill=\"none\" stroke=\"")@
        + c + ("\" stroke-width=\"2\"/><line x1=\"60\" y1=\"51\" x2=\"60\" y2=\"100\" stroke=\"")@
        + c + ("\" stroke-width=\"2\"/><line x1=\"60\" y1=\"65\" x2=\"35\" y2=\"85\" stroke=\"")@
        + c + ("\" stroke-width=\"2\"/><line x1=\"60\" y1=\"65\" x2=\"85\" y2=\"85\" stroke=\"")@
        + c + ("\" stroke-width=\"2\"/><line x1=\"60\" y1=\"100\" x2=\"40\" y2=\"140\" stroke=\"")@
        + c + ("\" stroke-width=\"2\"/><line x1=\"60\" y1=\"100\" x2=\"80\" y2=\"140\" stroke=\"")@
        + c + (
    "\" stroke-width=\"2\"/><text x=\"60\" y=\"155\" text-anchor=\"middle\" fill=\"")@ + c + (
    "\" font-family=\"monospace\" font-size=\"11\">")@ + name + ("</text></svg>")@
}

/// Builds the colour string of a hue.
fn hsl_color_exec(hue: u64) -> (r: String)
    ensures
        r@ == hsl_color(hue as nat),
{
    let mut c = String::from_str("hsl(");
    let dec = u64_dec_string(hue);
    c.append(dec.as_str());
    c.append(",80%,60%)");
    c
}

/// Renders the full stick-figure SVG for the character at `index`, coloured
/// by its hue of 60 degrees per index.
pub fn generate_character_svg(index: usize, name: &str) -> (r: String)
    requires
        index * 60 <= u64::MAX,
    ensures
        r@ == character_svg((index * 60) as nat, name@),
{
    let hue = (index as u64) * 60;
    let c = hsl_color_exec(hue);
    let mut out = String::from_str(
        "<svg xmlns=\"http://www.w3.org/2000/svg\" width=\"120\" height=\"160\" viewBox=\"0 0 120 160\"><rect width=\"120\" height=\"160\" fill=\"rgb(10,10,10)\"/><circle cx=\"60\" cy=\"35\" r=\"16\" fill=\"none\" stroke=\"",
    );
    out.append(c.as_str());
    out.append("\" stroke-width=\"2\"/><line x1=\"60\" y1=\"51\" x2=\"60\" y2=\"100\" stroke=\"");
    out.append(c.as_str());
    out.append("\" stroke-width=\"2\"/><line x1=\"60\" y1=\"65\" x2=\"35\" y2=\"85\" stroke=\"");
    out.append(c.as_str());
    out.append("\" stroke-width=\"2\"/><line x1=\"60\" y1=\"65\" x2=\"85\" y2=\"85\" stroke=\"");
    out.append(c.as_str());
    out.append("\" stroke-width=\"2\"/><line x1=\"60\" y1=\"100\" x2=\"40\" y2=\"140\" stroke=\"");
    out.append(c.as_str());
    out.append("\" stroke-width=\"2\"/><line x1=\"60\" y1=\"100\" x2=\"80\" y2=\"140\" stroke=\"");
    out.append(c.as_str());
    out.append("\" stroke-width=\"2\"/><text x=\"60\" y=\"155\" text-anchor=\"middle\" fill=\"");
    out.append(c.as_str());
    out.append("\" font-family=\"monospace\" font-size=\"11\">");
    out.append(name);
    out.append("</text></svg>");
    out
}

/// The tiny badge SVG of a character metadata URI: a coloured circle with
/// the character's initial.
pub open spec fn badge_svg(hue: nat, initial: char) -> Seq<char> {
    ("<svg xmlns=\"http://www.w3.org/2000/svg\" width=\"32\" height=\"32\"><circle cx=\"16\" cy=\"16\" r=\"15\" fill=\"hsl(")@
        + dec_chars(hue) + (",80%,60%)\"/><text x=\"16\" y=\"22\" text-anchor=\"middle\" fill=\"#fff\" font-size=\"18\">")@
        + seq![initial] + ("</text></svg>")@
}

/// A minimal `{name, image}` JSON object, its fields verbatim.
pub open spec fn mini_json(name: Seq<char>, image: Seq<char>) -> Seq<char> {
    ("{\"name\":\"")@ + name + ("\",\"image\":\"")@ + image + ("\"}")@
}

/// A JSON data URI over the base64 of the object's UTF-8 bytes.
pub open spec fn json_data_uri(json: Seq<char>) -> Seq<char> {
    ("data:application/json;base64,")@ + base64_chars(encode_utf8(json))
}

/// The character's initial: its first character, or `?` for an empty name.
pub open spec fn initial_of(name: Seq<char>) -> char {
    if name.len() == 0 {
        '?'
    } else {
        name[0]
    }
}

/// Builds the tiny on-chain metadata URI of a character: a badge SVG data
/// URI as the image of a minimal JSON object, itself as a data URI. The
/// description is accepted but, as the object is minimal, does not appear.
pub fn build_character_metadata_uri(index: usize, name: &str, description: &str) -> (r: String)
    requires
        index * 60 <= u64::MAX,
    ensures
        r@ == json_data_uri(mini_json(name@, ("data:image/svg+xml;base64,")@ + base64_chars(
            encode_utf8(badge_svg((index * 60) as nat, initial_of(name@))),
        ))),
{
    let hue = (index as u64) * 60;
    let initial = if name.unicode_len() == 0 {
        '?'
    } else {
        name.get_char(0)
    };
    let mut svg = String::from_str(
        "<svg xmlns=\"http://www.w3.org/2000/svg\" width=\"32\" height=\"32\"><circle cx=\"16\" cy=\"16\" r=\"15\" fill=\"hsl(",
    );
    let dec = u64_dec_string(hue);
    svg.append(dec.as_str());
    svg.append(",80%,60%)\"/><text x=\"16\" y=\"22\" text-anchor=\"middle\" fill=\"#fff\" font-size=\"18\">");
    push_char(&mut svg, initial);
    svg.append("</text></svg>");
    proof {
        assert(svg@ =~= badge_svg((index * 60) as nat, initial_of(name@)));
    }
    let svg_b64 = base64_encode(svg.as_str().as_bytes());
    let mut img = String::from_str("data:image/svg+xml;base64,");
    img.append(svg_b64.as_str());
    let mut json = String::from_str("{\"name\":\"");
    json.append(name);
    json.append("\",\"image\":\"");
    json.append(img.as_str());
    json.append("\"}");
    proof {
        assert(json@ =~= mini_json(name@, img@));
    }
    let json_b64 = base64_encode(json.as_str().as_bytes());
    let mut out = String::from_str("data:application/json;base64,");
    out.append(json_b64.as_str());
    out
}

/// Builds the tiny on-chain metadata URI of a collection: a minimal JSON
/// object with the name and an empty image, as a data URI.
pub fn build_collection_metadata_uri(name: &str) -> (r: String)
    ensures
        r@ == json_data_uri(mini_json(name@, Seq::empty())),
{
    named_empty_image_uri(name)
}

/// Builds the tiny on-chain metadata URI of a profile picture: the same
/// minimal object as a collection's.
pub fn build_profile_metadata_uri(name: &str) -> (r: String)
    ensures
        r@ == json_data_uri(mini_json(name@, Seq::empty())),
{
    named_empty_image_uri(name)
}

/// The shared minimal `{name, image: ""}` data URI.
fn named_empty_image_uri(name: &str) -> (r: String)
    ensures
        r@ == json_data_uri(mini_json(name@, Seq::empty())),
{
    let mut json = String::from_str("{\"name\":\"");
    json.append(name);
    json.append("\",\"image\":\"");
    json.append("\"}");
    proof {
        assert(json@ =~= mini_json(name@, Seq::empty()));
    }
    let json_b64 = base64_encode(json.as_str().as_bytes());
    let mut out = String::from_str("data:application/json;base64,");
    out.append(json_b64.as_str());
    out
}

} // verus!
