//! Variable-length integer codec.
//!
//! A non-negative integer `n` is encoded by doubling it (the low bit is a
//! sign bit in the general zigzag scheme; inputs here are always
//! non-negative lengths and counts, so it is always zero) and emitting the
//! result seven bits per byte, least-significant group first, with the
//! continuation bit `0x80` set on every byte except the last.

use vstd::prelude::*;
use vstd::arithmetic::div_mod::lemma_fundamental_div_mod;

verus! {

/// The little-endian base-128 byte string of `v`: seven bits per byte,
/// least-significant group first, continuation bit set on all but the last.
pub open spec fn varint_bytes(v: nat) -> Seq<u8>
    decreases v,
{
    if v < 128 {
        seq![v as u8]
    } else {
        seq![(v % 128 + 128) as u8] + varint_bytes(v / 128)
    }
}

/// The byte string of a length-prefixed byte string: the varint of twice
/// the length, then the bytes themselves.
pub open spec fn vstring_bytes(b: Seq<u8>) -> Seq<u8> {
    varint_bytes(2 * b.len()) + b
}

/// A well-formed varint region: at least one byte, the continuation bit set
/// on every byte except the last.
pub open spec fn is_varint(s: Seq<u8>) -> bool {
    &&& s.len() >= 1
    &&& (forall|i: int| 0 <= i < s.len() - 1 ==> #[trigger] s[i] >= 128)
    &&& s[s.len() - 1] < 128
}

/// The value carried by a varint region: the 7-bit groups of the bytes,
/// least-significant first.
pub open spec fn varint_value(s: Seq<u8>) -> nat
    decreases s.len(),
{
    if s.len() == 0 {
        0
    } else {
        (s[0] % 128) as nat + 128 * varint_value(s.skip(1))
    }
}

/// Index just past the varint region that starts at `start`: the index after
/// the first byte without the continuation bit, or `None` if every remaining
/// byte has it set (or `start` is out of range).
pub open spec fn varint_end(s: Seq<u8>, start: int) -> Option<int>
    decreases s.len() - start,
{
    if start < 0 || start >= s.len() {
        None
    } else if s[start] < 128 {
        Some(start + 1)
    } else {
        varint_end(s, start + 1)
    }
}

/// What decoding at `start` yields: the accumulated value divided by two and
/// the number of bytes consumed, or `None` when no terminating byte follows,
/// the region is longer than ten bytes, or a ten-byte region carries more
/// than 64 bits (the decoder works in a 64-bit accumulator).
pub open spec fn varint_decode_spec(s: Seq<u8>, start: int) -> Option<(nat, int)> {
    match varint_end(s, start) {
        None => None,
        Some(end) => {
            let k = end - start;
            if k > 10 {
                None
            } else if k == 10 && s[start + 9] >= 2 {
                None
            } else {
                Some((varint_value(s.subrange(start, end)) / 2, k))
            }
        },
    }
}

/// Encodes `n` as `varint_bytes(2 * n)`.
pub fn varint_encode(n: u64) -> (r: Vec<u8>)
    requires
        n <= u64::MAX / 2,
    ensures
        r@ == varint_bytes((2 * n) as nat),
{
    let mut out: Vec<u8> = Vec::new();
    let mut v: u64 = n * 2;
    while v >= 128
        invariant
            varint_bytes((2 * n) as nat) == out@ + varint_bytes(v as nat),
        decreases v,
    {
        out.push((v % 128 + 128) as u8);
        v = v / 128;
    }
    out.push(v as u8);
    proof {
        assert(varint_bytes(v as nat) == seq![v as u8]);
        assert(out@ == varint_bytes((2 * n) as nat));
    }
    out
}

/// Encodes a length-prefixed byte string: `varint(2 * length)` then the bytes.
pub fn varint_string(b: &Vec<u8>) -> (r: Vec<u8>)
    requires
        b@.len() <= u64::MAX / 2,
    ensures
        r@ == vstring_bytes(b@),
{
    let mut out = varint_encode(b.len() as u64);
    let mut rest = b.clone();
    out.append(&mut rest);
    out
}

/// Appending a byte to a varint region adds its 7-bit group at the top.
proof fn lemma_varint_value_push(s: Seq<u8>, b: u8)
    ensures
        varint_value(s.push(b)) == varint_value(s) + pow128(s.len()) * ((b % 128) as nat),
    decreases s.len(),
{
    reveal_with_fuel(varint_value, 3);
    if s.len() == 0 {
        assert(s.push(b) =~= seq![b]);
        assert(varint_value(seq![b].skip(1)) == 0) by {
            assert(seq![b].skip(1) =~= Seq::<u8>::empty());
        }
        assert(seq![b][0] == b);
        assert(varint_value(s) == 0);
        assert(pow128(s.len()) == 1);
        assert(varint_value(s.push(b)) == (b % 128) as nat);
        assert(varint_value(s.push(b)) == varint_value(s) + pow128(s.len()) * ((b % 128) as nat));
    } else {
        assert(s.push(b).len() == s.len() + 1);
        assert(s.push(b)[0] == s[0]);
        assert(s.push(b).skip(1) =~= s.skip(1).push(b));
        lemma_varint_value_push(s.skip(1), b);
        let p = pow128((s.len() - 1) as nat);
        let g = (b % 128) as nat;
        assert(varint_value(s.push(b)) == (s.push(b)[0] % 128) as nat + 128 * varint_value(
            s.push(b).skip(1),
        ));
        assert(128 * (varint_value(s.skip(1)) + p * g) == 128 * varint_value(s.skip(1)) + (128
            * p) * g) by (nonlinear_arith);
        assert(pow128(s.len()) == 128 * p);
        assert(varint_value(s) == (s[0] % 128) as nat + 128 * varint_value(s.skip(1)));
    }
}

/// 128 raised to `k`.
pub open spec fn pow128(k: nat) -> nat
    decreases k,
{
    if k == 0 {
        1
    } else {
        128 * pow128((k - 1) as nat)
    }
}

/// The two powers of 128 that bound the decoder's 64-bit accumulator.
proof fn lemma_pow128_values()
    ensures
        pow128(8) == 0x100000000000000,
        pow128(9) == 0x8000000000000000,
{
    reveal_with_fuel(pow128, 10);
}

/// Decodes the varint region that starts at `start`, as
/// `varint_decode_spec` describes.
pub fn varint_decode(bytes: &Vec<u8>, start: usize) -> (r: Option<(u64, usize)>)
    ensures
        match r {
            Some((n, used)) => varint_decode_spec(bytes@, start as int) == Some(
                (n as nat, used as int),
            ),
            None => varint_decode_spec(bytes@, start as int) is None,
        },
{
    let ghost s = bytes@;
    let mut i: usize = 0;
    let mut acc: u64 = 0;
    let mut m: u64 = 1;
    loop
        invariant
            s == bytes@,
            i <= 9,
            start + i <= usize::MAX,
            m == pow128(i as nat),
            acc < m,
            start + i <= s.len() ==> acc == varint_value(s.subrange(start as int, start + i)),
            forall|j: int| start <= j < start + i ==> #[trigger] s[j] >= 128,
            varint_end(s, start as int) == varint_end(s, start + i),
        decreases 10 - i,
    {
        if start >= bytes.len() || bytes.len() - start <= i {
            assert(varint_end(s, start + i) is None);
            return None;
        }
        let b = bytes[start + i];
        proof {
            assert(start + i < s.len());
            assert(b == s[start + i]);
            let sub = s.subrange(start as int, start + i);
            assert(sub.len() == i);
            assert(acc == varint_value(sub));
            lemma_varint_value_push(sub, b);
            assert(sub.push(b) =~= s.subrange(start as int, start + i + 1));
            assert(varint_value(s.subrange(start as int, start + i + 1)) == acc + pow128(
                i as nat,
            ) * ((b % 128) as nat));
            assert(varint_value(s.subrange(start as int, start + i + 1)) == acc + m * ((b
                % 128) as nat));
            assert((((b % 128) as u64) as nat) * (m as nat) == (m as nat) * (((b
                % 128) as u64) as nat)) by (nonlinear_arith);
            lemma_pow128_values();
        }
        if b < 128 {
            if i == 9 && b >= 2 {
                return None;
            }
            proof {
                assert(varint_end(s, start + i) == Some(start + i + 1));
                assert((b as nat) * (m as nat) == (m as nat) * ((b % 128) as nat))
                    by (nonlinear_arith)
                    requires
                        b < 128,
                ;
                if i < 9 {
                    assert(pow128(i as nat) <= pow128(8)) by {
                        lemma_pow128_increases(i as nat, 8);
                    }
                    assert((b as nat) * (m as nat) < 0x8000000000000000) by (nonlinear_arith)
                        requires
                            b < 128,
                            (m as nat) <= 0x100000000000000,
                    ;
                } else {
                    assert((b as nat) * (m as nat) <= (m as nat)) by (nonlinear_arith)
                        requires
                            b <= 1,
                    ;
                }
            }
            let value = acc + (b as u64) * m;
            return Some((value / 2, i + 1));
        }
        if i == 9 {
            proof {
                assert(varint_end(s, start + 9) == varint_end(s, start + 10));
                if varint_end(s, start + 10) is Some {
                    lemma_varint_end_range(s, start + 10);
                }
            }
            return None;
        }
        proof {
            assert(pow128(i as nat) <= pow128(8)) by {
                lemma_pow128_increases(i as nat, 8);
            }
            assert(pow128((i + 1) as nat) == 128 * pow128(i as nat));
            assert(((b % 128) as nat) * (m as nat) < 0x8000000000000000) by (nonlinear_arith)
                requires
                    (m as nat) <= 0x100000000000000,
            ;
            assert(acc + ((b % 128) as nat) * (m as nat) < 128 * (m as nat)) by (nonlinear_arith)
                requires
                    acc < m,
                    b % 128 < 128,
            ;
        }
        acc = acc + ((b % 128) as u64) * m;
        m = m * 128;
        i = i + 1;
    }
}

/// `pow128` is monotone in its argument.
proof fn lemma_pow128_increases(a: nat, b: nat)
    requires
        a <= b,
    ensures
        pow128(a) <= pow128(b),
    decreases b,
{
    if a < b {
        lemma_pow128_increases(a, (b - 1) as nat);
    }
}

/// The end of a varint region lies past its start and within the bytes.
pub proof fn lemma_varint_end_range(s: Seq<u8>, start: int)
    requires
        varint_end(s, start) is Some,
    ensures
        start < varint_end(s, start).unwrap() <= s.len(),
    decreases s.len() - start,
{
    if !(start < 0 || start >= s.len()) && s[start] >= 128 {
        lemma_varint_end_range(s, start + 1);
    }
}

/// The canonical encoding of `v` is a well-formed varint region that carries
/// `v`, occupies at most ten bytes, and keeps its top byte below 2 when it
/// occupies all ten.
pub proof fn lemma_varint_bytes_valid(v: nat)
    requires
        v < 0x10000000000000000,
    ensures
        is_varint(varint_bytes(v)),
        varint_value(varint_bytes(v)) == v,
        varint_bytes(v).len() <= 10,
        varint_bytes(v).len() == 10 ==> varint_bytes(v)[9] < 2,
    decreases v,
{
    lemma_varint_bytes_valid_rec(v, 0x10000000000000000);
}

/// Helper generalizing over the bound: if `v < bound` then the encoding is
/// well formed with value `v` and length at most `log128(bound)` rounded up.
proof fn lemma_varint_bytes_valid_rec(v: nat, bound: nat)
    requires
        v < bound,
        bound == 0x10000000000000000,
    ensures
        is_varint(varint_bytes(v)),
        varint_value(varint_bytes(v)) == v,
        varint_bytes(v).len() <= 10,
        varint_bytes(v).len() == 10 ==> varint_bytes(v)[9] < 2,
    decreases v,
{
    lemma_varint_bytes_shape(v);
    lemma_pow128_values();
    lemma_varint_len_le(v, 10);
    if varint_bytes(v).len() == 10 {
        lemma_varint_top_byte(v, 10);
    }
}

/// The encoding is a well-formed varint region carrying `v`.
proof fn lemma_varint_bytes_shape(v: nat)
    ensures
        is_varint(varint_bytes(v)),
        varint_value(varint_bytes(v)) == v,
    decreases v,
{
    reveal_with_fuel(varint_value, 3);
    reveal_with_fuel(varint_bytes, 2);
    if v < 128 {
        assert(varint_bytes(v) == seq![v as u8]);
        assert(varint_bytes(v).skip(1) =~= Seq::<u8>::empty());
        assert(varint_value(varint_bytes(v)) == ((v as u8) % 128) as nat);
    } else {
        lemma_varint_bytes_shape(v / 128);
        let s = varint_bytes(v);
        let t = varint_bytes(v / 128);
        assert(s == seq![(v % 128 + 128) as u8] + t);
        assert(s.skip(1) =~= t);
        assert(s.len() == t.len() + 1);
        assert(varint_value(s) == (s[0] % 128) as nat + 128 * varint_value(s.skip(1)));
        assert(varint_value(s.skip(1)) == varint_value(t));
        assert(s[0] == (v % 128 + 128) as u8);
        assert((s[0] % 128) as nat == v % 128);
        lemma_fundamental_div_mod(v as int, 128);
        assert(forall|i: int| 0 <= i < s.len() - 1 ==> #[trigger] s[i] >= 128) by {
            assert(forall|i: int| 1 <= i < s.len() ==> s[i] == t[i - 1]);
        }
    }
}

/// If `v < pow128(k)` then the encoding takes at most `k` bytes.
proof fn lemma_varint_len_le(v: nat, k: nat)
    requires
        k >= 1,
        v < pow128(k),
    ensures
        varint_bytes(v).len() <= k,
    decreases v,
{
    if v >= 128 {
        assert(pow128(k) == 128 * pow128((k - 1) as nat));
        lemma_varint_len_le(v / 128, (k - 1) as nat);
    }
}

/// If `v < 2 * pow128(k - 1)` and the encoding takes exactly `k` bytes, the
/// top byte is below 2.
proof fn lemma_varint_top_byte(v: nat, k: nat)
    requires
        k >= 1,
        v < 2 * pow128((k - 1) as nat),
        varint_bytes(v).len() == k,
    ensures
        varint_bytes(v)[k - 1] < 2,
    decreases v,
{
    if v < 128 {
        assert(k == 1);
    } else {
        let s = varint_bytes(v);
        let t = varint_bytes(v / 128);
        assert(s == seq![(v % 128 + 128) as u8] + t);
        assert(t.len() == k - 1);
        assert(k >= 2);
        assert(pow128((k - 1) as nat) == 128 * pow128((k - 2) as nat));
        lemma_varint_top_byte(v / 128, (k - 1) as nat);
        assert(s[k - 1] == t[k - 2]);
    }
}

/// Law: decoding an encoded value recovers it. The canonical encoding of
/// `2 * n` decodes to `n`, consuming the whole region.
pub proof fn lemma_varint_round_trip(n: u64)
    requires
        n <= u64::MAX / 2,
    ensures
        varint_decode_spec(varint_bytes((2 * n) as nat), 0) == Some(
            (n as nat, varint_bytes((2 * n) as nat).len() as int),
        ),
{
    let v = (2 * n) as nat;
    let s = varint_bytes(v);
    lemma_varint_bytes_valid(v);
    lemma_varint_end_of_varint(s);
    assert(s.subrange(0, s.len() as int) =~= s);
    assert(v / 2 == n as nat);
}

/// Scanning a region whose bytes all carry the continuation bit except the
/// last ends just past that last byte.
proof fn lemma_varint_end_region(s: Seq<u8>, pos: int, k: int)
    requires
        0 <= pos,
        k >= 1,
        pos + k <= s.len(),
        forall|j: int| pos <= j < pos + k - 1 ==> #[trigger] s[j] >= 128,
        s[pos + k - 1] < 128,
    ensures
        varint_end(s, pos) == Some(pos + k),
    decreases k,
{
    if k > 1 {
        lemma_varint_end_region(s, pos + 1, k - 1);
    }
}

/// A canonical varint embedded at `pos` decodes there to its value, halved,
/// consuming exactly its own bytes.
pub proof fn lemma_varint_decode_embedded(s: Seq<u8>, pos: int, v: nat)
    requires
        v < 0x10000000000000000,
        0 <= pos,
        pos + varint_bytes(v).len() <= s.len(),
        s.subrange(pos, pos + varint_bytes(v).len()) == varint_bytes(v),
    ensures
        varint_decode_spec(s, pos) == Some((v / 2, varint_bytes(v).len() as int)),
{
    let b = varint_bytes(v);
    let k = b.len() as int;
    lemma_varint_bytes_valid(v);
    assert(forall|j: int| pos <= j < pos + k - 1 ==> #[trigger] s[j] >= 128) by {
        assert(forall|j: int| pos <= j < pos + k ==> s[j] == b[j - pos]);
    }
    assert(s[pos + k - 1] == b[k - 1]);
    lemma_varint_end_region(s, pos, k);
    assert(varint_value(s.subrange(pos, pos + k)) == v);
    if k == 10 {
        assert(s[pos + 9] == b[9]);
    }
}

/// In a well-formed varint region, scanning from the start ends exactly at
/// its last byte.
proof fn lemma_varint_end_of_varint(s: Seq<u8>)
    requires
        is_varint(s),
    ensures
        varint_end(s, 0) == Some(s.len() as int),
{
    lemma_varint_end_scan(s, 0);
}

/// Scanning a well-formed varint region from any position of its
/// continuation prefix reaches the terminator.
proof fn lemma_varint_end_scan(s: Seq<u8>, start: int)
    requires
        is_varint(s),
        0 <= start < s.len(),
        forall|i: int| 0 <= i < s.len() - 1 ==> #[trigger] s[i] >= 128,
    ensures
        varint_end(s, start) == Some(s.len() as int),
    decreases s.len() - start,
{
    if s[start] >= 128 {
        lemma_varint_end_scan(s, start + 1);
    }
}

} // verus!
