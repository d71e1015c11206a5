//! Parameters of the xsk233 group and of its two fields.
use crate::scalar::{
    lemma_le_value_split, lemma_limbs_le_bytes_len, lemma_limbs_le_bytes_value,
    lemma_strip_trailing_zeros, le_value, limbs_le_bytes, limbs_value, scalar_bytes, truncated,
    MAX_SCALAR_BYTES,
};
use vstd::arithmetic::power::pow;
use vstd::prelude::*;

verus! {

/// The curve's parameters: base field, scalar field, cofactor and the
/// short Weierstrass coefficients `A = 0`, `B = 1`.
#[derive(Clone, Copy, Default, PartialEq, Eq)]
pub struct Xsk233CurveConfig;

/// The prime field of scalars, of order `r`.
pub struct FrConfig;

/// The base field of the curve's coordinates.
pub struct FqConfig;

/// The cofactor, as the limbs of a big integer: 4, the factor that
/// multiplying by the cofactor and clearing it use.
///
/// Beware: the engine's group has prime order, which would make the cofactor
/// 1, and `COFACTOR_INV` below is 1, which is the inverse of 1 and not of 4.
/// Which of the two values is meant is not settled; both are kept as given.
pub const COFACTOR: [u64; 1] = [4];

/// The inverse of the cofactor modulo `r`, as the limbs of a big integer: 1
/// (see `COFACTOR`).
pub const COFACTOR_INV: [u64; 4] = [1, 0, 0, 0];

/// The multiplicative generator that the scalar field is built with.
pub const FR_GENERATOR: u64 = 3;

/// The multiplicative generator that the base field is built with.
pub const FQ_GENERATOR: u64 = 4;

/// Two to the 64th, the base of a limb.
pub open spec fn limb_base() -> nat {
    0x1_0000_0000_0000_0000
}

/// The order `r` of the scalar field,
/// 3450873173395281893717377931138512760570940988862252126328087024741343.
pub open spec fn fr_modulus() -> nat {
    ((0x80_0000_0000 * limb_base() + 0) * limb_base() + 0x0006_9d5b_b915_bcd4) * limb_base()
        + 0x6efb_1ad5_f173_abdf
}

/// The order of the base field,
/// 13803492693581127574869511724554050904902217944340773110325048447598591.
pub open spec fn fq_modulus() -> nat {
    ((0x1ff_ffff_ffff * limb_base() + 0xffff_ffff_ffff_ffff) * limb_base() + 0xffff_ffff_ffff_ffff)
        * limb_base() + 0xffff_ffff_ffff_ffff
}

/// Every scalar below `r` reaches the curve engine whole: the bytes that
/// `bigint_to_le_bytes` hands over read back as the scalar itself.
pub proof fn lemma_canonical_scalar_bytes(limbs: Seq<u64>)
    requires
        limbs.len() == 4,
        limbs_value(limbs) < fr_modulus(),
    ensures
        le_value(scalar_bytes(limbs)) == limbs_value(limbs),
        scalar_bytes(limbs).len() <= MAX_SCALAR_BYTES,
{
    let b = limbs_le_bytes(limbs);
    lemma_limbs_le_bytes_len(limbs);
    lemma_limbs_le_bytes_value(limbs);
    let t = truncated(b, MAX_SCALAR_BYTES as nat);
    assert(t == b.take(30));
    lemma_le_value_split(b, 30);
    assert(pow(256, 30) == limb_base() * limb_base() * limb_base() * 0x1_0000_0000_0000) by {
        reveal_with_fuel(pow, 31);
    }
    let rest = le_value(b.skip(30));
    let p30 = pow(256, 30);
    if rest > 0 {
        assert(p30 * rest >= p30) by (nonlinear_arith)
            requires rest > 0, p30 > 0;
    }
    assert(p30 * rest == 0) by (nonlinear_arith)
        requires rest == 0;
    lemma_strip_trailing_zeros(t);
}

} // verus!
