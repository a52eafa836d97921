//! Decimal numerals: the ASCII digit string of a non-negative integer,
//! most significant digit first, as bytes and as text.

use vstd::prelude::*;

verus! {

/// ASCII bytes of the decimal numeral of `n`, most significant digit first.
pub open spec fn dec_digits(n: nat) -> Seq<u8>
    decreases n,
{
    if n < 10 {
        seq![(48 + n) as u8]
    } else {
        dec_digits(n / 10).push((48 + n % 10) as u8)
    }
}

/// The decimal numeral of `n` as characters.
pub open spec fn dec_chars(n: nat) -> Seq<char> {
    dec_digits(n).map_values(|b: u8| b as char)
}

/// Writes the decimal numeral of `n`, most significant digit first.
#[verifier::loop_isolation(false)]
pub fn u64_dec_bytes(n: u64) -> (r: Vec<u8>)
    ensures
        r@ == dec_digits(n as nat),
{
    let mut rev: Vec<u8> = Vec::new();
    let mut v: u64 = n;
    while v >= 10
        invariant
            dec_digits(n as nat) == dec_digits(v as nat) + rev@.reverse(),
        decreases v,
    {
        proof {
            let d = (48 + v % 10) as u8;
            assert(rev@.push(d).reverse() =~= seq![d] + rev@.reverse());
            assert(dec_digits((v / 10) as nat).push(d) + rev@.reverse() =~= dec_digits(
                (v / 10) as nat,
            ) + (seq![d] + rev@.reverse()));
        }
        rev.push((48 + v % 10) as u8);
        v = v / 10;
    }
    proof {
        let d = (48 + v) as u8;
        assert(dec_digits(v as nat) == seq![d]);
        assert(rev@.push(d).reverse() =~= seq![d] + rev@.reverse());
    }
    rev.push((48 + v) as u8);
    let mut out: Vec<u8> = Vec::new();
    let mut k: usize = rev.len();
    while k > 0
        invariant
            k <= rev@.len(),
            out@.len() == rev@.len() - k,
            forall|i: int| 0 <= i < out@.len() ==> out@[i] == rev@[rev@.len() - 1 - i],
        decreases k,
    {
        k = k - 1;
        let d = rev[k];
        out.push(d);
    }
    proof {
        assert(out@ =~= rev@.reverse());
    }
    out
}

/// The decimal numeral of `n` as a `String`.
pub fn u64_dec_string(n: u64) -> (r: String)
    ensures
        r@ == dec_chars(n as nat),
        r@.len() == dec_digits(n as nat).len(),
{
    let bytes = u64_dec_bytes(n);
    proof {
        lemma_dec_digits_ascii(n as nat);
    }
    let r = crate::text::ascii_bytes_to_string(bytes);
    proof {
        assert(r@ =~= dec_chars(n as nat));
    }
    r
}

/// Every byte of a decimal numeral is an ASCII digit.
pub proof fn lemma_dec_digits_ascii(n: nat)
    ensures
        forall|i: int|
            0 <= i < dec_digits(n).len() ==> 48 <= #[trigger] dec_digits(n)[i] <= 57,
        dec_digits(n).len() >= 1,
    decreases n,
{
    if n >= 10 {
        lemma_dec_digits_ascii(n / 10);
        assert(forall|i: int|
            0 <= i < dec_digits(n).len() - 1 ==> dec_digits(n)[i] == dec_digits(n / 10)[i]);
    }
}

} // verus!
