//! Tag list codec.
//!
//! A tag is an ordered (name, value) pair of text; order is significant and
//! duplicate names are allowed. The empty list encodes to zero bytes. A
//! non-empty list encodes as the varint of the count, then for each tag the
//! length-prefixed name and value, then one terminating zero byte.

use vstd::prelude::*;
use vstd::string::StrSliceExecFns;
use vstd::utf8::encode_utf8;

use crate::varint::{
    lemma_varint_bytes_valid, lemma_varint_decode_embedded, varint_bytes, varint_decode,
    varint_decode_spec, varint_encode, varint_string, vstring_bytes,
};

verus! {

/// A name/value pair attached to a data item.
#[derive(Clone, Debug)]
pub struct Tag {
    pub name: String,
    pub value: String,
}

impl Tag {
    /// The pair of UTF-8 byte strings that the codec works over.
    pub open spec fn bytes_view(self) -> (Seq<u8>, Seq<u8>) {
        (encode_utf8(self.name@), encode_utf8(self.value@))
    }
}

/// The byte pairs of a tag sequence.
pub open spec fn tags_bytes_view(tags: Seq<Tag>) -> Seq<(Seq<u8>, Seq<u8>)> {
    tags.map_values(|t: Tag| t.bytes_view())
}

/// Encoding of one pair: length-prefixed name, then length-prefixed value.
pub open spec fn tag_pair_bytes(p: (Seq<u8>, Seq<u8>)) -> Seq<u8> {
    vstring_bytes(p.0) + vstring_bytes(p.1)
}

/// Concatenated encodings of the pairs, in order.
pub open spec fn tags_pairs_bytes(pairs: Seq<(Seq<u8>, Seq<u8>)>) -> Seq<u8>
    decreases pairs.len(),
{
    if pairs.len() == 0 {
        Seq::empty()
    } else {
        tag_pair_bytes(pairs[0]) + tags_pairs_bytes(pairs.skip(1))
    }
}

/// The full tag block: empty for no tags, else the varint of the count, the
/// pairs, and a single terminating zero byte.
pub open spec fn tag_list_bytes(pairs: Seq<(Seq<u8>, Seq<u8>)>) -> Seq<u8> {
    if pairs.len() == 0 {
        Seq::empty()
    } else {
        varint_bytes(2 * pairs.len()) + tags_pairs_bytes(pairs) + seq![0u8]
    }
}

/// Within the 64-bit limits of the length prefixes.
pub open spec fn pair_encodable(p: (Seq<u8>, Seq<u8>)) -> bool {
    &&& p.0.len() <= u64::MAX / 2
    &&& p.1.len() <= u64::MAX / 2
}

/// Every pair, and the count itself, fits its length prefix.
pub open spec fn tags_encodable(pairs: Seq<(Seq<u8>, Seq<u8>)>) -> bool {
    &&& pairs.len() <= u64::MAX / 2
    &&& forall|i: int| 0 <= i < pairs.len() ==> pair_encodable(#[trigger] pairs[i])
}

/// Encodes a tag list into its byte block.
#[verifier::loop_isolation(false)]
pub fn encode_tags(tags: &Vec<Tag>) -> (r: Vec<u8>)
    requires
        tags_encodable(tags_bytes_view(tags@)),
    ensures
        r@ == tag_list_bytes(tags_bytes_view(tags@)),
{
    let ghost pairs = tags_bytes_view(tags@);
    if tags.len() == 0 {
        return Vec::new();
    }
    let mut out = varint_encode(tags.len() as u64);
    let mut i: usize = 0;
    while i < tags.len()
        invariant
            i <= tags@.len(),
            out@ == varint_bytes(2 * pairs.len()) + tags_pairs_bytes(pairs.take(i as int)),
        decreases tags@.len() - i,
    {
        proof {
            assert(pairs[i as int] == tags@[i as int].bytes_view());
            assert(pair_encodable(pairs[i as int]));
        }
        let name_bytes = tags[i].name.as_str().as_bytes_vec();
        let mut enc_name = varint_string(&name_bytes);
        let value_bytes = tags[i].value.as_str().as_bytes_vec();
        let mut enc_value = varint_string(&value_bytes);
        out.append(&mut enc_name);
        out.append(&mut enc_value);
        proof {
            lemma_tags_pairs_bytes_push(pairs.take(i as int), pairs[i as int]);
            assert(pairs.take(i + 1) =~= pairs.take(i as int).push(pairs[i as int]));
        }
        i = i + 1;
    }
    out.push(0);
    proof {
        assert(pairs.take(pairs.len() as int) =~= pairs);
        assert(out@ =~= varint_bytes(2 * pairs.len()) + tags_pairs_bytes(pairs) + seq![0u8]);
    }
    out
}

/// Appending a pair appends its encoding.
proof fn lemma_tags_pairs_bytes_push(pairs: Seq<(Seq<u8>, Seq<u8>)>, p: (Seq<u8>, Seq<u8>))
    ensures
        tags_pairs_bytes(pairs.push(p)) == tags_pairs_bytes(pairs) + tag_pair_bytes(p),
    decreases pairs.len(),
{
    if pairs.len() == 0 {
        assert(pairs.push(p)[0] == p);
        assert(pairs.push(p).skip(1) =~= Seq::<(Seq<u8>, Seq<u8>)>::empty());
        assert(tags_pairs_bytes(Seq::<(Seq<u8>, Seq<u8>)>::empty()) =~= Seq::<u8>::empty());
        assert(tags_pairs_bytes(pairs.push(p)) =~= tag_pair_bytes(p));
        assert(tags_pairs_bytes(pairs) + tag_pair_bytes(p) =~= tag_pair_bytes(p));
    } else {
        assert(pairs.push(p).skip(1) =~= pairs.skip(1).push(p));
        lemma_tags_pairs_bytes_push(pairs.skip(1), p);
        assert(pairs.push(p)[0] == pairs[0]);
        assert(tags_pairs_bytes(pairs) + tag_pair_bytes(p) =~= tag_pair_bytes(pairs[0]) + (
        tags_pairs_bytes(pairs.skip(1)) + tag_pair_bytes(p)));
    }
}

/// What splitting a length-prefixed byte string at `pos` yields: the bytes
/// and the position just past them.
pub open spec fn parse_vstring(s: Seq<u8>, pos: int) -> Option<(Seq<u8>, int)> {
    match varint_decode_spec(s, pos) {
        None => None,
        Some((len, used)) => if pos + used + len <= s.len() {
            Some((s.subrange(pos + used, pos + used + len as int), pos + used + len))
        } else {
            None
        },
    }
}

/// Splits `count` consecutive (name, value) pairs starting at `pos`.
pub open spec fn parse_pairs(s: Seq<u8>, pos: int, count: nat) -> Option<
    (Seq<(Seq<u8>, Seq<u8>)>, int),
>
    decreases count,
{
    if count == 0 {
        Some((Seq::empty(), pos))
    } else {
        match parse_vstring(s, pos) {
            None => None,
            Some((name, p2)) => match parse_vstring(s, p2) {
                None => None,
                Some((value, p3)) => match parse_pairs(s, p3, (count - 1) as nat) {
                    None => None,
                    Some((rest, end)) => Some((seq![(name, value)] + rest, end)),
                },
            },
        }
    }
}

/// What splitting a whole tag block yields: the empty list for zero bytes,
/// else the counted pairs followed by exactly one zero byte.
pub open spec fn parse_tag_list(s: Seq<u8>) -> Option<Seq<(Seq<u8>, Seq<u8>)>> {
    if s.len() == 0 {
        Some(Seq::empty())
    } else {
        match varint_decode_spec(s, 0) {
            None => None,
            Some((count, used)) => if count == 0 {
                None
            } else {
                match parse_pairs(s, used, count) {
                    None => None,
                    Some((pairs, end)) => if end + 1 == s.len() && s[end] == 0 {
                        Some(pairs)
                    } else {
                        None
                    },
                }
            },
        }
    }
}

/// Law: splitting an encoded tag list by its layout recovers the encoded
/// (name, value) pairs in order.
pub proof fn lemma_tag_list_round_trip(pairs: Seq<(Seq<u8>, Seq<u8>)>)
    requires
        tags_encodable(pairs),
    ensures
        parse_tag_list(tag_list_bytes(pairs)) == Some(pairs),
{
    if pairs.len() == 0 {
    } else {
        let s = tag_list_bytes(pairs);
        let cv = varint_bytes(2 * pairs.len());
        let body = tags_pairs_bytes(pairs);
        assert(s == cv + body + seq![0u8]);
        assert(s.len() > 0);
        lemma_varint_bytes_valid(2 * pairs.len());
        assert(s.subrange(0, cv.len() as int) =~= cv);
        lemma_varint_decode_embedded(s, 0, 2 * pairs.len());
        assert((2 * pairs.len()) / 2 == pairs.len());
        assert(s.subrange(cv.len() as int, (cv.len() + body.len()) as int) =~= body);
        lemma_parse_pairs_embedded(s, cv.len() as int, pairs);
        assert(s[s.len() - 1] == 0);
        assert(parse_tag_list(s) == Some(pairs));
    }
}

/// The total length of the encoded pairs.
pub open spec fn pairs_bytes_len(pairs: Seq<(Seq<u8>, Seq<u8>)>) -> int {
    tags_pairs_bytes(pairs).len() as int
}

/// Pair encodings embedded at `pos` split back into the pairs themselves.
proof fn lemma_parse_pairs_embedded(s: Seq<u8>, pos: int, pairs: Seq<(Seq<u8>, Seq<u8>)>)
    requires
        tags_encodable(pairs),
        0 <= pos,
        pos + pairs_bytes_len(pairs) <= s.len(),
        s.subrange(pos, pos + pairs_bytes_len(pairs)) == tags_pairs_bytes(pairs),
    ensures
        parse_pairs(s, pos, pairs.len()) == Some((pairs, pos + pairs_bytes_len(pairs))),
    decreases pairs.len(),
{
    if pairs.len() == 0 {
        assert(parse_pairs(s, pos, 0) == Some((Seq::<(Seq<u8>, Seq<u8>)>::empty(), pos)));
        assert(pairs =~= Seq::<(Seq<u8>, Seq<u8>)>::empty());
    } else {
        let p = pairs[0];
        let rest = pairs.skip(1);
        let name_enc = vstring_bytes(p.0);
        let value_enc = vstring_bytes(p.1);
        assert(tags_pairs_bytes(pairs) == (name_enc + value_enc) + tags_pairs_bytes(rest));
        let p2 = pos + name_enc.len();
        let p3 = p2 + value_enc.len();
        let tpb = tags_pairs_bytes(pairs);
        let n1 = name_enc.len() as int;
        let n2 = value_enc.len() as int;
        lemma_subrange_shift(s, pos, tpb, 0, n1);
        assert(tpb.subrange(0, n1) =~= name_enc);
        lemma_subrange_shift(s, pos, tpb, n1, n1 + n2);
        assert(tpb.subrange(n1, n1 + n2) =~= value_enc);
        lemma_subrange_shift(s, pos, tpb, n1 + n2, pairs_bytes_len(pairs));
        assert(tpb.subrange(n1 + n2, pairs_bytes_len(pairs)) =~= tags_pairs_bytes(rest));
        assert(s.subrange(pos, p2) == name_enc);
        assert(s.subrange(p2, p3) == value_enc);
        lemma_parse_vstring_embedded(s, pos, p.0);
        lemma_parse_vstring_embedded(s, p2, p.1);
        assert(tags_encodable(rest)) by {
            assert(forall|i: int| 0 <= i < rest.len() ==> rest[i] == pairs[i + 1]);
        }
        lemma_parse_pairs_embedded(s, p3, rest);
        assert(seq![(p.0, p.1)] + rest =~= pairs);
    }
}

/// A slice of an embedded byte string equals the matching slice of the
/// string itself.
proof fn lemma_subrange_shift(s: Seq<u8>, pos: int, x: Seq<u8>, a: int, b: int)
    requires
        0 <= pos,
        pos + x.len() <= s.len(),
        s.subrange(pos, pos + x.len()) == x,
        0 <= a <= b <= x.len(),
    ensures
        s.subrange(pos + a, pos + b) == x.subrange(a, b),
{
    assert forall|j: int| 0 <= j < b - a implies #[trigger] s.subrange(pos + a, pos + b)[j]
        == x.subrange(a, b)[j] by {
        assert(s.subrange(pos + a, pos + b)[j] == s[pos + a + j]);
        assert(s.subrange(pos, pos + x.len())[a + j] == s[pos + (a + j)]);
        assert(x.subrange(a, b)[j] == x[a + j]);
    }
    assert(s.subrange(pos + a, pos + b) =~= x.subrange(a, b));
}

/// A length-prefixed byte string embedded at `pos` splits back into its
/// bytes.
proof fn lemma_parse_vstring_embedded(s: Seq<u8>, pos: int, b: Seq<u8>)
    requires
        b.len() <= u64::MAX / 2,
        0 <= pos,
        pos + vstring_bytes(b).len() <= s.len(),
        s.subrange(pos, pos + vstring_bytes(b).len()) == vstring_bytes(b),
    ensures
        parse_vstring(s, pos) == Some((b, pos + vstring_bytes(b).len())),
{
    let lv = varint_bytes(2 * b.len());
    let vb = vstring_bytes(b);
    let total = vb.len() as int;
    let n1 = lv.len() as int;
    assert(vb == lv + b);
    lemma_subrange_shift(s, pos, vb, 0, n1);
    assert(vb.subrange(0, n1) =~= lv);
    lemma_subrange_shift(s, pos, vb, n1, total);
    assert(vb.subrange(n1, total) =~= b);
    lemma_varint_decode_embedded(s, pos, 2 * b.len());
    assert((2 * b.len()) / 2 == b.len());
    assert(s.subrange(pos + n1, pos + n1 + b.len()) == b);
}

/// Splits a tag block back into its byte pairs, exactly as `parse_tag_list`
/// describes.
#[verifier::loop_isolation(false)]
pub fn decode_tags(bytes: &Vec<u8>) -> (r: Option<Vec<(Vec<u8>, Vec<u8>)>>)
    ensures
        match r {
            Some(pairs) => parse_tag_list(bytes@) == Some(
                pairs@.map_values(|p: (Vec<u8>, Vec<u8>)| (p.0@, p.1@)),
            ),
            None => parse_tag_list(bytes@) is None,
        },
{
    let ghost s = bytes@;
    if bytes.len() == 0 {
        proof {
            assert(Seq::<(Vec<u8>, Vec<u8>)>::empty().map_values(
                |p: (Vec<u8>, Vec<u8>)| (p.0@, p.1@),
            ) =~= Seq::<(Seq<u8>, Seq<u8>)>::empty());
        }
        return Some(Vec::new());
    }
    let (count, used) = match varint_decode(bytes, 0) {
        None => {
            return None;
        },
        Some(cu) => cu,
    };
    if count == 0 {
        return None;
    }
    let mut pairs: Vec<(Vec<u8>, Vec<u8>)> = Vec::new();
    let mut pos: usize = used;
    let mut remaining: u64 = count;
    proof {
        crate::varint::lemma_varint_end_range(s, 0);
        let f = |p: (Vec<u8>, Vec<u8>)| (p.0@, p.1@);
        assert(pairs@.map_values(f) =~= Seq::<(Seq<u8>, Seq<u8>)>::empty());
        let inner = parse_pairs(s, used as int, count as nat);
        if inner is Some {
            assert(pairs@.map_values(f) + inner.unwrap().0 =~= inner.unwrap().0);
        }
    }
    while remaining > 0
        invariant
            s == bytes@,
            pos <= s.len(),
            remaining <= count,
            parse_pairs(s, used as int, count as nat) == match parse_pairs(
                s,
                pos as int,
                remaining as nat,
            ) {
                None => None::<(Seq<(Seq<u8>, Seq<u8>)>, int)>,
                Some((rest, end)) => Some(
                    (pairs@.map_values(|p: (Vec<u8>, Vec<u8>)| (p.0@, p.1@)) + rest, end),
                ),
            },
        decreases remaining,
    {
        let name = match read_vstring(bytes, pos) {
            None => {
                return None;
            },
            Some(nv) => nv,
        };
        let value = match read_vstring(bytes, name.1) {
            None => {
                return None;
            },
            Some(vv) => vv,
        };
        let ghost old_pairs = pairs@;
        let ghost nb = name.0@;
        let ghost vb = value.0@;
        let new_pos = value.1;
        pairs.push((name.0, value.0));
        proof {
            let f = |p: (Vec<u8>, Vec<u8>)| (p.0@, p.1@);
            assert(pairs@.map_values(f) =~= old_pairs.map_values(f).push((nb, vb)));
            let inner = parse_pairs(s, new_pos as int, (remaining - 1) as nat);
            if inner is Some {
                let rest = inner.unwrap().0;
                assert(old_pairs.map_values(f) + (seq![(nb, vb)] + rest) =~= old_pairs.map_values(
                    f,
                ).push((nb, vb)) + rest);
            }
        }
        pos = new_pos;
        remaining = remaining - 1;
    }
    if bytes.len() - pos == 1 && bytes[pos] == 0 {
        Some(pairs)
    } else {
        None
    }
}

/// Reads one length-prefixed byte string at `pos`, as `parse_vstring`
/// describes.
fn read_vstring(bytes: &Vec<u8>, pos: usize) -> (r: Option<(Vec<u8>, usize)>)
    requires
        pos <= bytes@.len(),
    ensures
        match r {
            Some((b, end)) => {
                &&& parse_vstring(bytes@, pos as int) == Some((b@, end as int))
                &&& pos <= end <= bytes@.len()
            },
            None => parse_vstring(bytes@, pos as int) is None,
        },
{
    let (len, used) = match varint_decode(bytes, pos) {
        None => {
            return None;
        },
        Some(lu) => lu,
    };
    proof {
        crate::varint::lemma_varint_end_range(bytes@, pos as int);
        assert(crate::varint::varint_end(bytes@, pos as int) == Some(pos + used));
    }
    if len > ((bytes.len() - pos) - used) as u64 {
        return None;
    }
    let start = pos + used;
    let end = start + (len as usize);
    let piece = vstd::slice::slice_to_vec(vstd::slice::slice_subrange(
        bytes.as_slice(),
        start,
        end,
    ));
    Some((piece, end))
}

} // verus!
