//! Byte-to-text conversion shared by the string-producing functions.

use vstd::prelude::*;

verus! {

/// Relies on `String::from_utf8`: the returned string holds exactly the
/// given bytes, and ASCII bytes decode one to one, each byte to the
/// character with its code. The requirement keeps the bytes ASCII, so the
/// conversion cannot fail.
#[verifier::external_body]
pub(crate) fn ascii_bytes_to_string(v: Vec<u8>) -> (r: String)
    requires
        forall|i: int| 0 <= i < v@.len() ==> v@[i] < 128,
    ensures
        r@ == v@.map_values(|b: u8| b as char),
{
    match String::from_utf8(v) {
        Ok(s) => s,
        Err(_) => String::new(),
    }
}

/// Relies on `String::push`: appends exactly the one character.
#[verifier::external_body]
pub(crate) fn push_char(s: &mut String, c: char)
    ensures
        final(s)@ == old(s)@ + seq![c],
{
    s.push(c);
}

} // verus!
