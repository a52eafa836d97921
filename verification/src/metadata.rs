//! Character metadata JSON.
//!
//! Builds the metadata object `{name, description, image, attributes}` as
//! UTF-8 bytes, with the three stats as `trait_type`/`value` attribute
//! records. Text fields are escaped the way the standard JSON serializers
//! escape them: `"` and `\` with a backslash, the named control characters
//! as `\b`, `\t`, `\n`, `\f`, `\r`, and the remaining control bytes as
//! `\u00` followed by two lowercase hex digits.

use vstd::prelude::*;
use vstd::string::StringSliceAdditionalSpecFns;
use vstd::string::StrSliceExecFns;

use crate::decimal::{dec_digits, u64_dec_bytes};

verus! {

/// The lowercase hex digit of a value below 16.
pub open spec fn hex_digit(n: nat) -> u8 {
    if n < 10 {
        (48 + n) as u8
    } else {
        (87 + n) as u8
    }
}

/// The escape of one byte of a JSON string body.
pub open spec fn json_escaped_byte(b: u8) -> Seq<u8> {
    if b == 34 {  // quote
        seq![92u8, 34u8]
    } else if b == 92 {  // backslash
        seq![92u8, 92u8]
    } else if b == 8 {
        seq![92u8, 98u8]  // \b
    } else if b == 9 {
        seq![92u8, 116u8]  // \t
    } else if b == 10 {
        seq![92u8, 110u8]  // \n
    } else if b == 12 {
        seq![92u8, 102u8]  // \f
    } else if b == 13 {
        seq![92u8, 114u8]  // \r
    } else if b < 32 {
        seq![92u8, 117u8, 48u8, 48u8, hex_digit((b / 16) as nat), hex_digit((b % 16) as nat)]
    } else {
        seq![b]
    }
}

/// The escape of a whole JSON string body.
pub open spec fn json_escaped(s: Seq<u8>) -> Seq<u8>
    decreases s.len(),
{
    if s.len() == 0 {
        Seq::empty()
    } else {
        json_escaped_byte(s[0]) + json_escaped(s.skip(1))
    }
}

/// Escaping one more byte appends its escape.
proof fn lemma_json_escaped_push(s: Seq<u8>, b: u8)
    ensures
        json_escaped(s.push(b)) == json_escaped(s) + json_escaped_byte(b),
    decreases s.len(),
{
    reveal_with_fuel(json_escaped, 3);
    if s.len() == 0 {
        assert(s.push(b)[0] == b);
        assert(s.push(b).skip(1) =~= Seq::<u8>::empty());
        assert(json_escaped(s.push(b)) =~= json_escaped_byte(b));
        assert(json_escaped(s) + json_escaped_byte(b) =~= json_escaped_byte(b));
    } else {
        assert(s.push(b)[0] == s[0]);
        assert(s.push(b).skip(1) =~= s.skip(1).push(b));
        lemma_json_escaped_push(s.skip(1), b);
        assert(json_escaped(s) + json_escaped_byte(b) =~= json_escaped_byte(s[0]) + (json_escaped(
            s.skip(1),
        ) + json_escaped_byte(b)));
    }
}

/// The metadata JSON bytes for a name, description, image URL and the three
/// stat values.
pub open spec fn metadata_json_bytes(
    name: Seq<u8>,
    description: Seq<u8>,
    image_url: Seq<u8>,
    hp: nat,
    atk: nat,
    def: nat,
) -> Seq<u8> {
    ("{\"name\":\"").spec_bytes() + json_escaped(name) + ("\",\"description\":\"").spec_bytes()
        + json_escaped(description) + ("\",\"image\":\"").spec_bytes() + json_escaped(image_url) + (
    "\",\"attributes\":[{\"trait_type\":\"HP\",\"value\":").spec_bytes() + dec_digits(hp) + (
    "},{\"trait_type\":\"ATK\",\"value\":").spec_bytes() + dec_digits(atk) + (
    "},{\"trait_type\":\"DEF\",\"value\":").spec_bytes() + dec_digits(def) + ("}]}").spec_bytes()
}

/// Appends the UTF-8 bytes of `s`.
fn push_str_bytes(out: &mut Vec<u8>, s: &str)
    ensures
        final(out)@ == old(out)@ + s.spec_bytes(),
{
    let mut piece = s.as_bytes_vec();
    out.append(&mut piece);
}

/// Appends the escaped bytes of `s`.
#[verifier::loop_isolation(false)]
fn push_escaped(out: &mut Vec<u8>, s: &Vec<u8>)
    ensures
        final(out)@ == old(out)@ + json_escaped(s@),
{
    let mut i: usize = 0;
    while i < s.len()
        invariant
            i <= s@.len(),
            out@ == old(out)@ + json_escaped(s@.take(i as int)),
        decreases s@.len() - i,
    {
        let b = s[i];
        proof {
            lemma_json_escaped_push(s@.take(i as int), b);
            assert(s@.take(i + 1) =~= s@.take(i as int).push(b));
        }
        if b == 34 {
            out.push(92);
            out.push(34);
        } else if b == 92 {
            out.push(92);
            out.push(92);
        } else if b == 8 {
            out.push(92);
            out.push(98);
        } else if b == 9 {
            out.push(92);
            out.push(116);
        } else if b == 10 {
            out.push(92);
            out.push(110);
        } else if b == 12 {
            out.push(92);
            out.push(102);
        } else if b == 13 {
            out.push(92);
            out.push(114);
        } else if b < 32 {
            out.push(92);
            out.push(117);
            out.push(48);
            out.push(48);
            out.push(if b / 16 < 10 {
                48 + b / 16
            } else {
                87 + b / 16
            });
            out.push(if b % 16 < 10 {
                48 + b % 16
            } else {
                87 + b % 16
            });
        } else {
            out.push(b);
        }
        proof {
            assert(out@ =~= old(out)@ + json_escaped(s@.take(i + 1)));
        }
        i = i + 1;
    }
    proof {
        assert(s@.take(s@.len() as int) =~= s@);
    }
}

/// Builds the metadata JSON payload for a character: name, description,
/// image URL, and the HP/ATK/DEF attribute records.
pub fn build_metadata_json(
    name: &str,
    description: &str,
    image_url: &str,
    hp: u32,
    atk: u32,
    def: u32,
) -> (r: Vec<u8>)
    ensures
        r@ == metadata_json_bytes(name.spec_bytes(), description.spec_bytes(),
            image_url.spec_bytes(), hp as nat, atk as nat, def as nat),
{
    let mut out: Vec<u8> = Vec::new();
    push_str_bytes(&mut out, "{\"name\":\"");
    let name_bytes = name.as_bytes_vec();
    push_escaped(&mut out, &name_bytes);
    push_str_bytes(&mut out, "\",\"description\":\"");
    let desc_bytes = description.as_bytes_vec();
    push_escaped(&mut out, &desc_bytes);
    push_str_bytes(&mut out, "\",\"image\":\"");
    let url_bytes = image_url.as_bytes_vec();
    push_escaped(&mut out, &url_bytes);
    push_str_bytes(&mut out, "\",\"attributes\":[{\"trait_type\":\"HP\",\"value\":");
    let mut hp_dec = u64_dec_bytes(hp as u64);
    out.append(&mut hp_dec);
    push_str_bytes(&mut out, "},{\"trait_type\":\"ATK\",\"value\":");
    let mut atk_dec = u64_dec_bytes(atk as u64);
    out.append(&mut atk_dec);
    push_str_bytes(&mut out, "},{\"trait_type\":\"DEF\",\"value\":");
    let mut def_dec = u64_dec_bytes(def as u64);
    out.append(&mut def_dec);
    push_str_bytes(&mut out, "}]}");
    proof {
        assert(out@ =~= metadata_json_bytes(name.spec_bytes(), description.spec_bytes(),
            image_url.spec_bytes(), hp as nat, atk as nat, def as nat));
    }
    out
}

} // verus!
