//! Base58 address decoding.
//!
//! A textual address is mapped through the 58-character alphabet
//! `123456789ABCDEFGHJKLMNPQRSTUVWXYZabcdefghijkmnopqrstuvwxyz` (the
//! visually ambiguous `0`, `O`, `I` and `l` are excluded) and interpreted as
//! a big-endian base-58 number. The decoder keeps a 44-cell base-256 scratch
//! buffer, multiplies it by 58 and adds each character's alphabet index,
//! then pads with one zero byte per leading `1` character; it succeeds only
//! when the decoded length is exactly 32 bytes.

use vstd::prelude::*;
use vstd::arithmetic::div_mod::{
    lemma_add_mod_noop, lemma_fundamental_div_mod_converse, lemma_mod_bound,
    lemma_mod_multiples_vanish, lemma_mul_mod_noop_left, lemma_multiply_divide_lt,
    lemma_small_mod,
};
use vstd::arithmetic::div_mod::{lemma_div_by_multiple, lemma_div_is_ordered,
    lemma_fundamental_div_mod};
use vstd::pervasive::VecAdditionalExecFns;
use vstd::string::StringSliceAdditionalSpecFns;

verus! {

/// Why a textual address cannot be decoded: a character outside the
/// alphabet, or a decoded length other than 32 bytes.
#[derive(Clone, Copy, Debug, PartialEq, Eq, Structural)]
pub enum DecodeError {
    InvalidChar(char),
    WrongLength(usize),
}

/// Alphabet index of the input byte `c`, or -1 when `c` is not one of the
/// 58 alphabet characters.
pub open spec fn b58_index(c: u8) -> int {
    if 49 <= c <= 57 {  // '1' ..= '9'
        c - 49
    } else if 65 <= c <= 72 {  // 'A' ..= 'H'
        c - 65 + 9
    } else if 74 <= c <= 78 {  // 'J' ..= 'N'
        c - 74 + 17
    } else if 80 <= c <= 90 {  // 'P' ..= 'Z'
        c - 80 + 22
    } else if 97 <= c <= 107 {  // 'a' ..= 'k'
        c - 97 + 33
    } else if 109 <= c <= 122 {  // 'm' ..= 'z'
        c - 109 + 44
    } else {
        -1
    }
}

/// The big-endian base-58 value of an all-valid byte string (an invalid
/// byte contributes zero; the decoder never reads the value in that case).
pub open spec fn b58_value(bs: Seq<u8>) -> nat
    decreases bs.len(),
{
    if bs.len() == 0 {
        0
    } else {
        b58_value(bs.drop_last()) * 58 + (if b58_index(bs.last()) >= 0 {
            b58_index(bs.last()) as nat
        } else {
            0
        })
    }
}

/// 256 raised to `k`.
pub open spec fn pow256(k: nat) -> nat
    decreases k,
{
    if k == 0 {
        1
    } else {
        256 * pow256((k - 1) as nat)
    }
}

/// Number of leading `1` characters (byte 49) of the input.
pub open spec fn leading_ones(bs: Seq<u8>) -> int
    decreases bs.len(),
{
    if bs.len() == 0 || bs[0] != 49 {
        0
    } else {
        1 + leading_ones(bs.skip(1))
    }
}

/// Fewest bytes that hold `v`: zero for zero, one more than for `v / 256`
/// otherwise.
pub open spec fn byte_len(v: nat) -> nat
    decreases v,
{
    if v == 0 {
        0
    } else {
        1 + byte_len(v / 256)
    }
}

/// The low `k` bytes of `v`, big-endian.
pub open spec fn be_bytes(v: nat, k: nat) -> Seq<u8>
    decreases k,
{
    if k == 0 {
        Seq::empty()
    } else {
        be_bytes(v / 256, (k - 1) as nat).push((v % 256) as u8)
    }
}

/// The value the 44-cell scratch buffer holds after all characters are
/// consumed: the base-58 value reduced modulo the buffer's capacity.
pub open spec fn scratch_value(bs: Seq<u8>) -> nat {
    b58_value(bs) % pow256(44)
}

/// Length of the decoded output: one zero byte per leading `1`, plus the
/// bytes of the scratch value.
pub open spec fn decoded_len(bs: Seq<u8>) -> int {
    leading_ones(bs) + byte_len(scratch_value(bs))
}

/// The big-endian base-256 value of the scratch cells.
pub open spec fn cells_value(t: Seq<u32>) -> nat
    decreases t.len(),
{
    if t.len() == 0 {
        0
    } else {
        cells_value(t.drop_last()) * 256 + t.last() as nat
    }
}

/// Every scratch cell holds a single byte.
pub open spec fn cells_bytelike(t: Seq<u32>) -> bool {
    forall|j: int| 0 <= j < t.len() ==> #[trigger] t[j] < 256
}

/// Decodes a base58 address into exactly 32 bytes.
///
/// Fails with `InvalidChar` on the first character outside the alphabet,
/// and with `WrongLength` when the decoded length differs from 32; returns
/// the 32-byte big-endian value (leading `1`s as zero bytes) otherwise.
#[verifier::loop_isolation(false)]
pub fn bs58_decode(s: &str) -> (r: Result<Vec<u8>, DecodeError>)
    requires
        s.spec_bytes().len() <= usize::MAX - 44,
    ensures
        match r {
            Ok(out) => {
                &&& forall|j: int|
                    0 <= j < s.spec_bytes().len() ==> b58_index(#[trigger] s.spec_bytes()[j]) >= 0
                &&& decoded_len(s.spec_bytes()) == 32
                &&& out@.len() == 32
                &&& out@ == be_bytes(scratch_value(s.spec_bytes()), 32)
            },
            Err(DecodeError::InvalidChar(c)) => exists|k: int|
                {
                    &&& 0 <= k < s.spec_bytes().len()
                    &&& b58_index(#[trigger] s.spec_bytes()[k]) < 0
                    &&& (forall|j: int| 0 <= j < k ==> b58_index(#[trigger] s.spec_bytes()[j]) >= 0)
                    &&& c == s.spec_bytes()[k] as char
                },
            Err(DecodeError::WrongLength(got)) => {
                &&& forall|j: int|
                    0 <= j < s.spec_bytes().len() ==> b58_index(#[trigger] s.spec_bytes()[j]) >= 0
                &&& decoded_len(s.spec_bytes()) == got
                &&& got != 32
            },
        },
{
    let input = s.as_bytes();
    let ghost bs = s.spec_bytes();
    let mut scratch: Vec<u32> = Vec::new();
    let mut f: usize = 0;
    while f < 44
        invariant
            scratch@.len() == f,
            f <= 44,
            forall|j: int| 0 <= j < f ==> scratch@[j] == 0u32,
        decreases 44 - f,
    {
        scratch.push(0);
        f = f + 1;
    }
    proof {
        lemma_cells_value_all_zero(scratch@);
        lemma_pow256_pos(44);
        assert(bs.take(0) =~= Seq::<u8>::empty());
        assert(b58_value(Seq::<u8>::empty()) == 0);
        lemma_small_mod(0, pow256(44));
    }

    let mut i: usize = 0;
    while i < input.len()
        invariant
            input@ == bs,
            i <= bs.len(),
            scratch@.len() == 44,
            cells_bytelike(scratch@),
            cells_value(scratch@) == b58_value(bs.take(i as int)) % pow256(44),
            forall|j: int| 0 <= j < i ==> b58_index(#[trigger] bs[j]) >= 0,
        decreases bs.len() - i,
    {
        let c = input[i];
        let idx = b58_index_exec(c);
        if idx < 0 {
            proof {
                assert(b58_index(bs[i as int]) < 0);
            }
            return Err(DecodeError::InvalidChar(c as char));
        }
        proof {
            lemma_pow256_pos(44);
            assert(pow256(44) > 58) by {
                lemma_pow256_at_least(44, 1);
            }
            let old_v = b58_value(bs.take(i as int));
            let d = b58_index(c);
            let p = pow256(44);
            lemma_mod_bound(old_v as int, p as int);
            lemma_small_mod(d as nat, p);
            lemma_mul_mod_noop_left(old_v as int, 58, p as int);
            lemma_add_mod_noop(((old_v % p) * 58) as int, d, p as int);
            lemma_add_mod_noop((old_v * 58) as int, d, p as int);
            assert(bs.take(i + 1).drop_last() =~= bs.take(i as int));
            assert(bs.take(i + 1).last() == bs[i as int]);
            assert(b58_value(bs.take(i + 1)) == old_v * 58 + d);
        }
        mul58_add(&mut scratch, idx as u32);
        i = i + 1;
    }
    proof {
        assert(bs.take(bs.len() as int) =~= bs);
    }

    let mut zeros: usize = 0;
    while zeros < input.len() && input[zeros] == 49
        invariant
            input@ == bs,
            zeros <= bs.len(),
            forall|j: int| 0 <= j < zeros ==> bs[j] == 49,
        decreases bs.len() - zeros,
    {
        zeros = zeros + 1;
    }
    proof {
        lemma_leading_ones_characterization(bs, zeros as int);
    }

    let mut start: usize = 0;
    while start < 44 && scratch[start] == 0
        invariant
            scratch@.len() == 44,
            start <= 44,
            forall|j: int| 0 <= j < start ==> scratch@[j] == 0u32,
        decreases 44 - start,
    {
        start = start + 1;
    }
    proof {
        lemma_byte_len_of_cells(scratch@, start as int);
    }

    let decoded: usize = zeros + (44 - start);
    if decoded != 32 {
        return Err(DecodeError::WrongLength(decoded));
    }

    let mut out: Vec<u8> = Vec::new();
    let mut z: usize = 0;
    while z < zeros
        invariant
            out@.len() == z,
            z <= zeros,
            forall|j: int| 0 <= j < z ==> out@[j] == 0u8,
        decreases zeros - z,
    {
        out.push(0);
        z = z + 1;
    }
    let mut j: usize = start;
    while j < 44
        invariant
            scratch@.len() == 44,
            cells_bytelike(scratch@),
            start <= j <= 44,
            out@.len() == zeros + (j - start),
            forall|k: int| 0 <= k < zeros ==> out@[k] == 0u8,
            forall|k: int| zeros <= k < out@.len() ==> out@[k] == scratch@[start + (k - zeros)] as u8,
        decreases 44 - j,
    {
        let cell = scratch[j];
        out.push(cell as u8);
        j = j + 1;
    }
    proof {
        lemma_decoded_assembly(scratch@, bs, start as int, zeros as int, out@);
    }
    Ok(out)
}

/// The alphabet lookup, executable.
fn b58_index_exec(c: u8) -> (r: i32)
    ensures
        r as int == b58_index(c),
{
    if 49 <= c && c <= 57 {
        c as i32 - 49
    } else if 65 <= c && c <= 72 {
        c as i32 - 65 + 9
    } else if 74 <= c && c <= 78 {
        c as i32 - 74 + 17
    } else if 80 <= c && c <= 90 {
        c as i32 - 80 + 22
    } else if 97 <= c && c <= 107 {
        c as i32 - 97 + 33
    } else if 109 <= c && c <= 122 {
        c as i32 - 109 + 44
    } else {
        -1
    }
}

/// One multiply-and-carry pass: the scratch buffer, read as a big-endian
/// base-256 number, becomes `old * 58 + digit` modulo its capacity.
#[verifier::loop_isolation(false)]
fn mul58_add(scratch: &mut Vec<u32>, digit: u32)
    requires
        old(scratch)@.len() == 44,
        digit < 58,
        cells_bytelike(old(scratch)@),
    ensures
        final(scratch)@.len() == 44,
        cells_bytelike(final(scratch)@),
        cells_value(final(scratch)@) == (cells_value(old(scratch)@) * 58 + digit as nat) % pow256(
            44,
        ),
{
    let ghost orig = scratch@;
    let mut val: u32 = digit;
    let mut j: usize = 44;
    proof {
        assert(orig.skip(44int) =~= Seq::<u32>::empty());
        assert(cells_value(Seq::<u32>::empty()) == 0);
        assert(pow256(0) == 1);
        assert(cells_value(scratch@.skip(44int)) == 0);
        assert(cells_value(orig.skip(44int)) == 0);
        assert((val as nat) * pow256((44 - 44) as nat) == digit as nat) by (nonlinear_arith)
            requires
                val == digit,
                pow256((44 - 44) as nat) == 1,
        ;
        assert(cells_value(scratch@.skip(44int)) + (val as nat) * pow256((44 - 44) as nat)
            == cells_value(orig.skip(44int)) * 58 + digit as nat);
    }
    while j > 0
        invariant
            scratch@.len() == 44,
            j <= 44,
            val <= 58,
            cells_bytelike(scratch@),
            forall|k: int| 0 <= k < j ==> scratch@[k] == orig[k],
            cells_value(scratch@.skip(j as int)) + (val as nat) * pow256((44 - j) as nat)
                == cells_value(orig.skip(j as int)) * 58 + digit as nat,
        decreases j,
    {
        j = j - 1;
        let cell = scratch[j];
        let ghost valin = val as nat;
        let nv: u32 = val + cell * 58;
        let ghost pre = scratch@;
        scratch.set(j, nv % 256);
        val = nv / 256;
        proof {
            assert(forall|k: int| 0 <= k <= j ==> pre[k] == orig[k]);
            lemma_mul58_step(orig, pre, scratch@, j as int, valin, nv as nat, digit as nat);
        }
    }
    proof {
        assert(scratch@.skip(0) =~= scratch@);
        assert(orig.skip(0) =~= orig);
        lemma_cells_value_bound(scratch@);
        lemma_pow256_pos(44);
        lemma_fundamental_div_mod_converse(
            (cells_value(orig) * 58 + digit as nat) as int,
            pow256(44) as int,
            val as int,
            cells_value(scratch@) as int,
        );
    }
}

/// A head cell contributes its value times the capacity of the cells that
/// follow it.
proof fn lemma_cells_value_head(t: Seq<u32>)
    requires
        t.len() >= 1,
    ensures
        cells_value(t) == (t[0] as nat) * pow256((t.len() - 1) as nat) + cells_value(t.skip(1)),
    decreases t.len(),
{
    reveal_with_fuel(cells_value, 2);
    assert(cells_value(Seq::<u32>::empty()) == 0);
    if t.len() == 1 {
        assert(t.drop_last() =~= Seq::<u32>::empty());
        assert(t.skip(1) =~= Seq::<u32>::empty());
        assert(pow256(0) == 1);
        assert(t.last() == t[0]);
        assert((t[0] as nat) * pow256((t.len() - 1) as nat) == t[0] as nat) by (nonlinear_arith)
            requires
                t.len() == 1,
                pow256((t.len() - 1) as nat) == 1,
        ;
    } else {
        lemma_cells_value_head(t.drop_last());
        assert(t.drop_last()[0] == t[0]);
        assert(t.drop_last().skip(1) =~= t.skip(1).drop_last());
        assert(t.skip(1).last() == t.last());
        let p = pow256((t.len() - 2) as nat);
        let h = t[0] as nat;
        let rest = cells_value(t.skip(1).drop_last());
        assert(cells_value(t.drop_last()) == h * p + rest);
        assert(cells_value(t) == cells_value(t.drop_last()) * 256 + t.last() as nat);
        assert(cells_value(t) == (h * p + rest) * 256 + t.last() as nat);
        assert((h * p + rest) * 256 == h * (p * 256) + rest * 256) by (nonlinear_arith);
        assert(pow256((t.len() - 1) as nat) == 256 * p);
        assert(h * (p * 256) == h * (256 * p)) by (nonlinear_arith);
        assert(cells_value(t.skip(1)) == rest * 256 + t.last() as nat);
        assert(cells_value(t) == h * (256 * p) + cells_value(t.skip(1)));
        assert(cells_value(t) == (t[0] as nat) * pow256((t.len() - 1) as nat) + cells_value(
            t.skip(1),
        ));
    }
}

/// The invariant of one step of the multiply-and-carry pass: absorbing
/// cell `j` moves the carry one position left while preserving the value
/// equation.
proof fn lemma_mul58_step(
    orig: Seq<u32>,
    pre: Seq<u32>,
    post: Seq<u32>,
    j: int,
    valin: nat,
    nv: nat,
    digit: nat,
)
    requires
        orig.len() == 44,
        pre.len() == 44,
        post.len() == 44,
        0 <= j < 44,
        forall|k: int| 0 <= k <= j ==> pre[k] == orig[k],
        post == pre.update(j, ((nv % 256) as u32)),
        nv == valin + (pre[j] as nat) * 58,
        cells_value(pre.skip(j + 1)) + valin * pow256((43 - j) as nat) == cells_value(
            orig.skip(j + 1),
        ) * 58 + digit,
    ensures
        cells_value(post.skip(j)) + (nv / 256) * pow256((44 - j) as nat) == cells_value(
            orig.skip(j),
        ) * 58 + digit,
{
    let p = pow256((43 - j) as nat);
    lemma_cells_value_head(post.skip(j));
    assert(post.skip(j)[0] == (nv % 256) as u32);
    assert(post.skip(j).skip(1) =~= post.skip(j + 1));
    assert(post.skip(j + 1) =~= pre.skip(j + 1));
    lemma_cells_value_head(orig.skip(j));
    assert(orig.skip(j)[0] == orig[j]);
    assert(orig.skip(j).skip(1) =~= orig.skip(j + 1));
    assert(orig[j] == pre[j]);
    assert(pow256((44 - j) as nat) == 256 * p);
    assert(cells_value(post.skip(j)) == (nv % 256) as nat * p + cells_value(pre.skip(j + 1)));
    assert((nv / 256) * (256 * p) + ((nv % 256) as nat) * p == nv * p) by (nonlinear_arith);
    assert(nv * p == ((pre[j] as nat) * 58) * p + valin * p) by (nonlinear_arith)
        requires
            nv == valin + (pre[j] as nat) * 58,
    ;
    assert(cells_value(orig.skip(j)) * 58 == ((orig[j] as nat) * p) * 58 + cells_value(
        orig.skip(j + 1),
    ) * 58) by (nonlinear_arith)
        requires
            cells_value(orig.skip(j)) == (orig[j] as nat) * p + cells_value(orig.skip(j + 1)),
    ;
    assert(((orig[j] as nat) * p) * 58 == ((orig[j] as nat) * 58) * p) by (nonlinear_arith);
}

/// Cells all below 256 encode a value below the capacity.
proof fn lemma_cells_value_bound(t: Seq<u32>)
    requires
        cells_bytelike(t),
    ensures
        cells_value(t) < pow256(t.len()),
    decreases t.len(),
{
    if t.len() > 0 {
        assert(cells_bytelike(t.drop_last())) by {
            assert(forall|j: int| 0 <= j < t.len() - 1 ==> t.drop_last()[j] == t[j]);
        }
        lemma_cells_value_bound(t.drop_last());
        let p = pow256((t.len() - 1) as nat);
        assert(cells_value(t.drop_last()) * 256 + 255 < p * 256) by (nonlinear_arith)
            requires
                cells_value(t.drop_last()) < p,
        ;
        assert(pow256(t.len()) == 256 * p);
    }
}

/// An all-zero buffer encodes zero.
proof fn lemma_cells_value_all_zero(t: Seq<u32>)
    requires
        forall|j: int| 0 <= j < t.len() ==> t[j] == 0u32,
    ensures
        cells_value(t) == 0,
    decreases t.len(),
{
    if t.len() > 0 {
        lemma_cells_value_all_zero(t.drop_last());
    }
}

/// `pow256` is positive.
proof fn lemma_pow256_pos(k: nat)
    ensures
        pow256(k) >= 1,
    decreases k,
{
    if k > 0 {
        lemma_pow256_pos((k - 1) as nat);
    }
}

/// `pow256(k)` is at least `pow256(e)` when `k >= e`, so in particular at
/// least 256 when `k >= 1`.
proof fn lemma_pow256_at_least(k: nat, e: nat)
    requires
        e <= k,
    ensures
        pow256(k) >= pow256(e),
        e >= 1 ==> pow256(k) >= 256,
    decreases k,
{
    if e < k {
        lemma_pow256_at_least((k - 1) as nat, e);
        lemma_pow256_pos((k - 1) as nat);
    }
    if e >= 1 {
        lemma_pow256_pos((e - 1) as nat);
    }
}

/// A scan that stops at the first byte that is not `1` computes
/// `leading_ones`.
proof fn lemma_leading_ones_characterization(bs: Seq<u8>, z: int)
    requires
        0 <= z <= bs.len(),
        forall|j: int| 0 <= j < z ==> bs[j] == 49,
        z < bs.len() ==> bs[z] != 49,
    ensures
        leading_ones(bs) == z,
    decreases z,
{
    if z == 0 {
    } else {
        assert(bs[0] == 49);
        lemma_leading_ones_characterization(bs.skip(1), z - 1);
    }
}

/// With the zero prefix of a buffer ending at `start`, the byte length of
/// its value is the number of remaining cells.
proof fn lemma_byte_len_of_cells(t: Seq<u32>, start: int)
    requires
        cells_bytelike(t),
        0 <= start <= t.len(),
        forall|j: int| 0 <= j < start ==> t[j] == 0u32,
        start < t.len() ==> t[start] != 0u32,
    ensures
        byte_len(cells_value(t)) == t.len() - start,
        cells_value(t) == cells_value(t.skip(start)),
{
    lemma_cells_zero_prefix(t, start);
    if start == t.len() {
        assert(t.skip(start) =~= Seq::<u32>::empty());
    } else {
        lemma_byte_len_exact(t.skip(start));
    }
}

/// Dropping an all-zero prefix keeps the value.
proof fn lemma_cells_zero_prefix(t: Seq<u32>, start: int)
    requires
        0 <= start <= t.len(),
        forall|j: int| 0 <= j < start ==> t[j] == 0u32,
    ensures
        cells_value(t) == cells_value(t.skip(start)),
    decreases start,
{
    if start == 0 {
        assert(t.skip(0) =~= t);
    } else {
        lemma_cells_value_head(t);
        lemma_cells_zero_prefix(t.skip(1), start - 1);
        assert(t.skip(1).skip(start - 1) =~= t.skip(start));
    }
}

/// A buffer whose head cell is non-zero encodes a value of exactly its
/// length in bytes.
proof fn lemma_byte_len_exact(u: Seq<u32>)
    requires
        u.len() >= 1,
        cells_bytelike(u),
        u[0] != 0u32,
    ensures
        byte_len(cells_value(u)) == u.len(),
        pow256((u.len() - 1) as nat) <= cells_value(u) < pow256(u.len()),
    decreases u.len(),
{
    lemma_cells_value_bound(u);
    lemma_cells_value_head(u);
    let p = pow256((u.len() - 1) as nat);
    assert((u[0] as nat) * p >= p) by (nonlinear_arith)
        requires
            u[0] >= 1,
            p >= 0,
    ;
    lemma_byte_len_in_range(cells_value(u), u.len());
}

/// `byte_len(v) == k` exactly when `v` sits between the two adjacent powers.
proof fn lemma_byte_len_in_range(v: nat, k: nat)
    requires
        k >= 1,
        pow256((k - 1) as nat) <= v,
        v < pow256(k),
    ensures
        byte_len(v) == k,
    decreases k,
{
    lemma_pow256_pos((k - 1) as nat);
    assert(v > 0);
    if k == 1 {
        assert(byte_len(v) == 1 + byte_len(v / 256));
        assert(v / 256 == 0);
    } else {
        let pl = pow256((k - 2) as nat);
        let ph = pow256((k - 1) as nat);
        assert(ph == 256 * pl);
        assert(pow256(k) == 256 * ph);
        lemma_pow256_pos((k - 2) as nat);
        assert(v / 256 >= pl) by {
            lemma_div_is_ordered((256 * pl) as int, v as int, 256);
            lemma_div_by_multiple(pl as int, 256);
        }
        assert(v / 256 < ph) by {
            lemma_multiply_divide_lt(v as int, 256, ph as int);
        }
        lemma_byte_len_in_range(v / 256, (k - 1) as nat);
    }
}

/// The assembled output is the 32-byte big-endian form of the scratch value.
proof fn lemma_decoded_assembly(t: Seq<u32>, bs: Seq<u8>, start: int, zeros: int, out: Seq<u8>)
    requires
        t.len() == 44,
        cells_bytelike(t),
        0 <= start <= 44,
        0 <= zeros,
        cells_value(t) == scratch_value(bs),
        byte_len(cells_value(t)) == 44 - start,
        cells_value(t) == cells_value(t.skip(start)),
        zeros + (44 - start) == 32,
        out.len() == 32,
        forall|k: int| 0 <= k < zeros ==> out[k] == 0u8,
        forall|k: int| zeros <= k < 32 ==> out[k] == t[start + (k - zeros)] as u8,
    ensures
        out == be_bytes(scratch_value(bs), 32),
{
    let v = cells_value(t);
    let tail = t.skip(start);
    lemma_be_bytes_of_cells(tail);
    assert(cells_value(tail) == v);
    assert(tail.len() == 44 - start);
    lemma_cells_value_bound(tail);
    lemma_be_bytes_zero_extend(v, (44 - start) as nat, zeros as nat);
    assert(out =~= be_bytes(v, 32)) by {
        assert(be_bytes(v, 32).len() == 32) by {
            lemma_be_bytes_len(v, 32);
        }
        assert forall|k: int| 0 <= k < 32 implies out[k] == be_bytes(v, 32)[k] by {
            lemma_be_bytes_len(v, (44 - start) as nat);
            if k < zeros {
                assert(be_bytes(v, 32)[k] == 0u8);
            } else {
                assert(be_bytes(v, 32)[k] == be_bytes(v, (44 - start) as nat)[k - zeros]);
                assert(be_bytes(v, (44 - start) as nat)[k - zeros] == tail[k - zeros] as u8);
            }
        }
    }
}

/// `be_bytes` has the requested length.
proof fn lemma_be_bytes_len(v: nat, k: nat)
    ensures
        be_bytes(v, k).len() == k,
    decreases k,
{
    if k > 0 {
        lemma_be_bytes_len(v / 256, (k - 1) as nat);
    }
}

/// Reading the bytes of a buffer's value gives back the buffer.
proof fn lemma_be_bytes_of_cells(t: Seq<u32>)
    requires
        cells_bytelike(t),
    ensures
        be_bytes(cells_value(t), t.len()) =~= t.map_values(|c: u32| c as u8),
        forall|k: int|
            0 <= k < t.len() ==> #[trigger] be_bytes(cells_value(t), t.len())[k] == t[k] as u8,
    decreases t.len(),
{
    lemma_be_bytes_len(cells_value(t), t.len());
    if t.len() > 0 {
        let v = cells_value(t);
        let d = cells_value(t.drop_last());
        assert(v == d * 256 + t.last() as nat);
        lemma_mod_multiples_vanish(d as int, t.last() as int, 256);
        lemma_small_mod(t.last() as nat, 256);
        assert(v % 256 == t.last() as nat);
        lemma_fundamental_div_mod_converse(v as int, 256, d as int, t.last() as int);
        assert(v / 256 == d);
        assert(cells_bytelike(t.drop_last())) by {
            assert(forall|j: int| 0 <= j < t.len() - 1 ==> t.drop_last()[j] == t[j]);
        }
        lemma_be_bytes_of_cells(t.drop_last());
        assert(be_bytes(v, t.len()) == be_bytes(d, (t.len() - 1) as nat).push((v % 256) as u8));
        assert(t.map_values(|c: u32| c as u8) =~= t.drop_last().map_values(|c: u32| c as u8).push(
            t.last() as u8,
        ));
    } else {
        assert(t.map_values(|c: u32| c as u8) =~= Seq::<u8>::empty());
    }
}

/// Zero-extending the byte form of a small enough value prepends zero bytes.
proof fn lemma_be_bytes_zero_extend(v: nat, k: nat, e: nat)
    requires
        v < pow256(k),
    ensures
        be_bytes(v, k + e) =~= Seq::new(e, |i: int| 0u8) + be_bytes(v, k),
    decreases k,
{
    lemma_be_bytes_len(v, k + e);
    lemma_be_bytes_len(v, k);
    if k == 0 {
        assert(v == 0);
        lemma_be_bytes_zero(e);
        assert(be_bytes(v, k) =~= Seq::<u8>::empty());
    } else {
        let pl = pow256((k - 1) as nat);
        assert(pow256(k) == 256 * pl);
        lemma_pow256_pos((k - 1) as nat);
        lemma_multiply_divide_lt(v as int, 256, pl as int);
        lemma_be_bytes_zero_extend(v / 256, (k - 1) as nat, e);
        assert(be_bytes(v, k + e) == be_bytes(v / 256, (k + e - 1) as nat).push((v % 256) as u8));
        assert(be_bytes(v, k) == be_bytes(v / 256, (k - 1) as nat).push((v % 256) as u8));
    }
}

/// The byte form of zero is all zero bytes.
proof fn lemma_be_bytes_zero(e: nat)
    ensures
        be_bytes(0, e) =~= Seq::new(e, |i: int| 0u8),
    decreases e,
{
    lemma_be_bytes_len(0, e);
    if e > 0 {
        lemma_be_bytes_zero((e - 1) as nat);
        assert(be_bytes(0nat, e) == be_bytes(0nat, (e - 1) as nat).push(0u8));
    }
}

/// The alphabet character (as a byte) of a base58 digit: the inverse of
/// `b58_index` on the digits 0 to 57.
pub open spec fn b58_char_of(d: int) -> u8 {
    if d < 9 {
        (49 + d) as u8  // '1' ..= '9'
    } else if d < 17 {
        (65 + (d - 9)) as u8  // 'A' ..= 'H'
    } else if d < 22 {
        (74 + (d - 17)) as u8  // 'J' ..= 'N'
    } else if d < 33 {
        (80 + (d - 22)) as u8  // 'P' ..= 'Z'
    } else if d < 44 {
        (97 + (d - 33)) as u8  // 'a' ..= 'k'
    } else {
        (109 + (d - 44)) as u8  // 'm' ..= 'z'
    }
}

/// The base58 digit characters of `v`, most significant first; empty for
/// zero.
pub open spec fn b58_digits(v: nat) -> Seq<u8>
    decreases v,
{
    if v == 0 {
        Seq::empty()
    } else {
        b58_digits(v / 58).push(b58_char_of((v % 58) as int))
    }
}

/// The big-endian base-256 value of a byte string.
pub open spec fn be_value(b: Seq<u8>) -> nat {
    cells_value(b.map_values(|x: u8| x as u32))
}

/// Number of leading zero bytes of a byte string.
pub open spec fn leading_zero_bytes(b: Seq<u8>) -> int
    decreases b.len(),
{
    if b.len() == 0 || b[0] != 0 {
        0
    } else {
        1 + leading_zero_bytes(b.skip(1))
    }
}

/// The canonical base58 encoding of a byte string: one `1` per leading zero
/// byte, then the digits of its value.
pub open spec fn b58_encode_bytes(b: Seq<u8>) -> Seq<u8> {
    Seq::new(leading_zero_bytes(b) as nat, |i: int| 49u8) + b58_digits(be_value(b))
}

/// The alphabet lookup inverts the digit characters.
proof fn lemma_b58_char_index(d: int)
    requires
        0 <= d < 58,
    ensures
        b58_index(b58_char_of(d)) == d,
{
}

/// Every digit character is in the alphabet, and the leading digit of a
/// positive value is never `1` (digit zero).
proof fn lemma_b58_digits_valid(v: nat)
    ensures
        forall|j: int| 0 <= j < b58_digits(v).len() ==> b58_index(#[trigger] b58_digits(v)[j]) >= 0,
        v > 0 ==> b58_digits(v).len() >= 1 && b58_index(b58_digits(v)[0]) >= 1,
        v == 0 ==> b58_digits(v).len() == 0,
    decreases v,
{
    if v > 0 {
        lemma_b58_digits_valid(v / 58);
        let s = b58_digits(v);
        let t = b58_digits(v / 58);
        lemma_b58_char_index((v % 58) as int);
        assert(forall|j: int| 0 <= j < t.len() ==> s[j] == t[j]);
        assert(s[s.len() - 1] == b58_char_of((v % 58) as int));
        if v < 58 {
            assert(v % 58 == v);
        }
    }
}

/// The digit characters carry the value back.
proof fn lemma_b58_digits_value(v: nat)
    ensures
        b58_value(b58_digits(v)) == v,
    decreases v,
{
    if v == 0 {
    } else {
        lemma_b58_digits_value(v / 58);
        let s = b58_digits(v);
        assert(s.drop_last() =~= b58_digits(v / 58));
        assert(s.last() == b58_char_of((v % 58) as int));
        lemma_b58_char_index((v % 58) as int);
        lemma_fundamental_div_mod(v as int, 58);
    }
}

/// A prefix of `1` characters (digit zero) does not change the value.
proof fn lemma_b58_value_ones_prefix(z: int, t: Seq<u8>)
    requires
        z >= 0,
    ensures
        b58_value(Seq::new(z as nat, |i: int| 49u8) + t) == b58_value(t),
    decreases t.len(),
{
    let ones = Seq::new(z as nat, |i: int| 49u8);
    if t.len() == 0 {
        assert(ones + t =~= ones);
        lemma_b58_value_all_ones(z);
    } else {
        lemma_b58_value_ones_prefix(z, t.drop_last());
        assert((ones + t).drop_last() =~= ones + t.drop_last());
        assert((ones + t).last() == t.last());
    }
}

/// A string of `1` characters alone has value zero.
proof fn lemma_b58_value_all_ones(z: int)
    requires
        z >= 0,
    ensures
        b58_value(Seq::new(z as nat, |i: int| 49u8)) == 0,
    decreases z,
{
    let ones = Seq::new(z as nat, |i: int| 49u8);
    if z > 0 {
        lemma_b58_value_all_ones(z - 1);
        assert(ones.drop_last() =~= Seq::new((z - 1) as nat, |i: int| 49u8));
        assert(ones.last() == 49u8);
        assert(b58_index(49u8) == 0);
    }
}

/// The zero-byte prefix scan is characterized by its endpoints.
proof fn lemma_leading_zero_bytes_characterization(b: Seq<u8>, z: int)
    requires
        0 <= z <= b.len(),
        forall|j: int| 0 <= j < z ==> b[j] == 0,
        z < b.len() ==> b[z] != 0,
    ensures
        leading_zero_bytes(b) == z,
    decreases z,
{
    if z > 0 {
        lemma_leading_zero_bytes_characterization(b.skip(1), z - 1);
    }
}

/// Law: decoding the canonical base58 encoding of a 32-byte value yields
/// exactly those bytes. Together with the decoder's contract: on any input
/// whose bytes are `b58_encode_bytes(b)` with `b` 32 bytes long, `bs58_decode`
/// returns `Ok` with `b`.
pub proof fn lemma_base58_round_trip(b: Seq<u8>)
    requires
        b.len() == 32,
    ensures
        forall|j: int|
            0 <= j < b58_encode_bytes(b).len() ==> b58_index(
                #[trigger] b58_encode_bytes(b)[j],
            ) >= 0,
        decoded_len(b58_encode_bytes(b)) == 32,
        be_bytes(scratch_value(b58_encode_bytes(b)), 32) == b,
{
    let cells = b.map_values(|x: u8| x as u32);
    let v = be_value(b);
    let z = leading_zero_bytes(b);
    let ones = Seq::new(z as nat, |i: int| 49u8);
    let digits = b58_digits(v);
    let s = b58_encode_bytes(b);

    assert(cells_bytelike(cells));
    lemma_leading_zeros_in_range(b);
    assert(forall|j: int| 0 <= j < z ==> cells[j] == 0u32) by {
        lemma_leading_zeros_are_zero(b);
    }
    assert(z < 32 ==> cells[z] != 0u32) by {
        lemma_leading_zeros_are_zero(b);
    }
    lemma_byte_len_of_cells(cells, z);
    assert(byte_len(v) == 32 - z);

    // The encoding is all alphabet characters.
    lemma_b58_digits_valid(v);
    assert(forall|j: int| 0 <= j < s.len() ==> b58_index(#[trigger] s[j]) >= 0) by {
        assert(forall|j: int| 0 <= j < z ==> s[j] == 49u8);
        assert(forall|j: int| z <= j < s.len() ==> s[j] == digits[j - z]);
    }

    // Its value is the bytes' value, and the scratch buffer keeps it whole.
    lemma_b58_value_ones_prefix(z, digits);
    lemma_b58_digits_value(v);
    assert(b58_value(s) == v);
    lemma_cells_value_bound(cells);
    lemma_pow256_at_least(44, 32);
    assert(v < pow256(44)) by {
        lemma_pow256_le(32, 44);
    }
    lemma_pow256_pos(44);
    lemma_small_mod(v, pow256(44));
    assert(scratch_value(s) == v);

    // One `1` per leading zero byte, and the digits start past them.
    if v > 0 {
        lemma_leading_ones_characterization(s, z);
    } else {
        assert(byte_len(v) == 0);
        assert(z == 32);
        assert(s =~= ones);
        lemma_leading_ones_characterization(s, z);
    }
    assert(decoded_len(s) == z + (32 - z));

    // The 32-byte form of the value is the byte string itself.
    lemma_be_bytes_of_cells(cells);
    assert(be_bytes(v, 32) =~= b) by {
        assert(forall|k: int| 0 <= k < 32 ==> cells.map_values(|c: u32| c as u8)[k] == b[k]);
    }
}

/// `pow256` is monotone.
proof fn lemma_pow256_le(a: nat, k: nat)
    requires
        a <= k,
    ensures
        pow256(a) <= pow256(k),
    decreases k,
{
    if a < k {
        lemma_pow256_le(a, (k - 1) as nat);
        lemma_pow256_pos(a);
    }
}

/// The leading zero bytes of `b` are zero, and the byte after them is not.
proof fn lemma_leading_zeros_are_zero(b: Seq<u8>)
    ensures
        forall|j: int| 0 <= j < leading_zero_bytes(b) ==> b[j] == 0,
        leading_zero_bytes(b) < b.len() ==> b[leading_zero_bytes(b)] != 0,
    decreases b.len(),
{
    lemma_leading_zeros_in_range(b);
    if b.len() > 0 && b[0] == 0 {
        lemma_leading_zeros_are_zero(b.skip(1));
        lemma_leading_zeros_in_range(b.skip(1));
        assert(forall|j: int| 1 <= j <= leading_zero_bytes(b) && j < b.len() ==> b[j] == b.skip(
            1,
        )[j - 1]);
        if leading_zero_bytes(b) < b.len() {
            assert(b[leading_zero_bytes(b)] == b.skip(1)[leading_zero_bytes(b) - 1]);
        }
    }
}

/// The zero-byte prefix never runs past the end.
proof fn lemma_leading_zeros_in_range(b: Seq<u8>)
    ensures
        0 <= leading_zero_bytes(b) <= b.len(),
    decreases b.len(),
{
    if b.len() > 0 && b[0] == 0 {
        lemma_leading_zeros_in_range(b.skip(1));
    }
}

} // verus!
