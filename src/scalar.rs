//! Little-endian byte strings of multi-word integers, as the curve engine
//! takes its scalars.
use vstd::arithmetic::div_mod::{lemma_div_denominator, lemma_mod_breakdown};
use vstd::arithmetic::power::{lemma_pow_adds, lemma_pow_multiplies, lemma_pow_positive, pow};
use vstd::prelude::*;

verus! {

/// Relies on ark_ff::BigInt: a tuple struct whose one public field holds the
/// N limbs of the integer, least significant first. Its field is read here.
#[verifier::external_type_specification]
pub struct ExBigInt<const N: usize>(ark_ff::BigInt<N>);

/// Value of a byte string read as a little-endian unsigned integer.
pub open spec fn le_value(b: Seq<u8>) -> nat
    decreases b.len(),
{
    if b.len() == 0 {
        0
    } else {
        le_value(b.drop_last()) + (b.last() as nat) * (pow(256, (b.len() - 1) as nat) as nat)
    }
}

/// Value of a sequence of 64-bit limbs, least significant limb first.
pub open spec fn limbs_value(ws: Seq<u64>) -> nat
    decreases ws.len(),
{
    if ws.len() == 0 {
        0
    } else {
        limbs_value(ws.drop_last()) + (ws.last() as nat) * (pow(2, (64 * (ws.len() - 1)) as nat) as nat)
    }
}

/// Byte `j` of `w`, counting from the least significant one.
pub open spec fn word_byte(w: u64, j: nat) -> u8 {
    ((w as int / pow(256, j)) % 256) as u8
}

/// The eight bytes of a word, least significant first.
pub open spec fn word_le_bytes(w: u64) -> Seq<u8> {
    Seq::new(8, |j: int| word_byte(w, j as nat))
}

/// The bytes of each limb in turn, least significant first.
pub open spec fn limbs_le_bytes(ws: Seq<u64>) -> Seq<u8>
    decreases ws.len(),
{
    if ws.len() == 0 {
        Seq::empty()
    } else {
        limbs_le_bytes(ws.drop_last()) + word_le_bytes(ws.last())
    }
}

/// The string with its trailing zero bytes removed.
pub open spec fn strip_trailing_zeros(b: Seq<u8>) -> Seq<u8>
    decreases b.len(),
{
    if b.len() > 0 && b.last() == 0 {
        strip_trailing_zeros(b.drop_last())
    } else {
        b
    }
}

/// At most the first `n` elements, as `Vec::truncate` keeps them.
pub open spec fn truncated(b: Seq<u8>, n: nat) -> Seq<u8> {
    if b.len() <= n {
        b
    } else {
        b.take(n as int)
    }
}

/// Longest scalar, in bytes, that the curve engine accepts.
pub const MAX_SCALAR_BYTES: usize = 30;

/// The engine's form of a scalar: its little-endian bytes, cut to the
/// engine's limit, with trailing zeros removed.
pub open spec fn scalar_bytes(ws: Seq<u64>) -> Seq<u8> {
    strip_trailing_zeros(truncated(limbs_le_bytes(ws), MAX_SCALAR_BYTES as nat))
}

pub proof fn lemma_limbs_le_bytes_len(ws: Seq<u64>)
    ensures
        limbs_le_bytes(ws).len() == 8 * ws.len(),
    decreases ws.len(),
{
    if ws.len() > 0 {
        lemma_limbs_le_bytes_len(ws.drop_last());
    }
}

/// Removing trailing zeros keeps the value and never lengthens the string;
/// what is left is empty or ends in a non-zero byte.
pub proof fn lemma_strip_trailing_zeros(b: Seq<u8>)
    ensures
        le_value(strip_trailing_zeros(b)) == le_value(b),
        strip_trailing_zeros(b).len() <= b.len(),
        strip_trailing_zeros(b).len() == 0 || strip_trailing_zeros(b).last() != 0,
    decreases b.len(),
{
    if b.len() > 0 && b.last() == 0 {
        lemma_strip_trailing_zeros(b.drop_last());
    }
}

/// A byte string's value splits at any position into the value of the
/// prefix and the shifted value of the rest.
pub proof fn lemma_le_value_split(b: Seq<u8>, k: nat)
    requires
        k <= b.len(),
    ensures
        le_value(b) == le_value(b.take(k as int)) + pow(256, k) * le_value(b.skip(k as int)),
    decreases b.len(),
{
    if b.len() == k {
        assert(b.take(k as int) =~= b);
        assert(b.skip(k as int).len() == 0);
    } else {
        let c = b.drop_last();
        let n = b.len();
        lemma_le_value_split(c, k);
        assert(c.take(k as int) =~= b.take(k as int));
        assert(c.skip(k as int) =~= b.skip(k as int).drop_last());
        let rest = b.skip(k as int);
        assert(rest.last() == b.last());
        lemma_pow_adds(256, k, (n - 1 - k) as nat);
        assert((k + (n - 1 - k) as nat) as nat == (n - 1) as nat);
        lemma_pow_positive(256, k);
        lemma_pow_positive(256, (n - 1 - k) as nat);
        lemma_pow_positive(256, (n - 1) as nat);
        let pk = pow(256, k);
        let pr = pow(256, (n - 1 - k) as nat);
        let x = le_value(c.skip(k as int)) as int;
        let l = b.last() as int;
        assert(pk * (x + l * pr) == pk * x + l * (pk * pr)) by (nonlinear_arith);
    }
}

/// The first `k` bytes of a word hold its value modulo `256^k`.
proof fn lemma_word_prefix_value(w: u64, k: nat)
    requires
        k <= 8,
    ensures
        le_value(word_le_bytes(w).take(k as int)) == w as int % pow(256, k),
    decreases k,
{
    let b = word_le_bytes(w);
    if k == 0 {
        assert(b.take(0).len() == 0);
        assert(pow(256, 0) == 1) by {
            reveal(pow);
        }
    } else {
        let j = (k - 1) as nat;
        lemma_word_prefix_value(w, j);
        let t = b.take(k as int);
        assert(t.drop_last() =~= b.take(j as int));
        let pj = pow(256, j);
        lemma_pow_positive(256, j);
        lemma_mod_breakdown(w as int, pj, 256);
        assert(pow(256, k) == pj * 256) by {
            reveal(pow);
        }
        let q = w as int / pj;
        assert(q >= 0) by (nonlinear_arith)
            requires w >= 0, pj > 0, q == w as int / pj;
        assert(t.last() as int == q % 256);
        assert(le_value(t) == le_value(t.drop_last()) + (t.last() as nat) * (pj as nat));
        let a = le_value(t.drop_last()) as int;
        let c = t.last() as int;
        assert(le_value(t) == a + c * pj);
        assert(c * pj == pj * (q % 256)) by (nonlinear_arith)
            requires c == q % 256;
    }
}

/// The bytes of a word read back give the word.
pub proof fn lemma_word_le_bytes_value(w: u64)
    ensures
        le_value(word_le_bytes(w)) == w,
{
    let b = word_le_bytes(w);
    lemma_word_prefix_value(w, 8);
    assert(b.take(8) =~= b);
    assert(pow(256, 8) == 0x1_0000_0000_0000_0000) by {
        reveal_with_fuel(pow, 9);
    }
}

/// Reading the limbs' bytes back gives the limbs' value.
pub proof fn lemma_limbs_le_bytes_value(ws: Seq<u64>)
    ensures
        le_value(limbs_le_bytes(ws)) == limbs_value(ws),
    decreases ws.len(),
{
    if ws.len() > 0 {
        let p = ws.drop_last();
        let b = limbs_le_bytes(ws);
        let k = (8 * p.len()) as nat;
        lemma_limbs_le_bytes_value(p);
        lemma_limbs_le_bytes_len(p);
        lemma_le_value_split(b, k);
        assert(b.take(k as int) =~= limbs_le_bytes(p));
        assert(b.skip(k as int) =~= word_le_bytes(ws.last()));
        lemma_word_le_bytes_value(ws.last());
        assert(pow(2, 8) == 256) by {
            reveal_with_fuel(pow, 9);
        }
        lemma_pow_multiplies(2, 8, k);
        assert(8 * k == 64 * (ws.len() - 1));
        let pk = pow(256, k);
        assert(pk == pow(2, (64 * (ws.len() - 1)) as nat));
        lemma_pow_positive(256, k);
        let lv = ws.last() as int;
        assert(le_value(b) == limbs_value(p) + pk * lv);
        assert(limbs_value(ws) == limbs_value(p) + lv * pk);
        assert(pk * lv == lv * pk) by (nonlinear_arith);
    }
}

/// Appends the eight bytes of `w`, least significant first.
fn push_word_le_bytes(bytes: &mut Vec<u8>, w: u64)
    ensures
        final(bytes)@ == old(bytes)@ + word_le_bytes(w),
{
    let mut x: u64 = w;
    let mut j: usize = 0;
    assert(pow(256, 0) == 1) by {
        reveal(pow);
    }
    while j < 8
        invariant
            j <= 8,
            x as int == w as int / pow(256, j as nat),
            bytes@ == old(bytes)@ + word_le_bytes(w).take(j as int),
        decreases 8 - j,
    {
        let ghost pj = pow(256, j as nat);
        proof {
            lemma_pow_positive(256, j as nat);
            lemma_div_denominator(w as int, pj, 256);
            assert(pow(256, (j + 1) as nat) == pj * 256) by {
                reveal(pow);
            }
        }
        bytes.push((x % 256) as u8);
        x = x / 256;
        j = j + 1;
        assert(bytes@ =~= old(bytes)@ + word_le_bytes(w).take(j as int));
    }
    assert(word_le_bytes(w).take(8) =~= word_le_bytes(w));
}

/// The little-endian bytes of a sequence of limbs, least significant limb
/// first: eight bytes for each limb.
pub fn words_to_le_bytes(words: &[u64]) -> (r: Vec<u8>)
    requires
        8 * words@.len() <= usize::MAX,
    ensures
        r@ == limbs_le_bytes(words@),
{
    let mut bytes: Vec<u8> = Vec::with_capacity(words.len() * 8);
    let mut i: usize = 0;
    while i < words.len()
        invariant
            i <= words@.len(),
            bytes@ == limbs_le_bytes(words@.take(i as int)),
        decreases words@.len() - i,
    {
        push_word_le_bytes(&mut bytes, words[i]);
        proof {
            let next = words@.take((i + 1) as int);
            assert(next.drop_last() =~= words@.take(i as int));
            assert(next.last() == words@[i as int]);
        }
        i = i + 1;
    }
    assert(words@.take(words@.len() as int) =~= words@);
    bytes
}

} // verus!
