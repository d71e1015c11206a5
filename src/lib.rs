use ark_ff::BigInt;
use vstd::prelude::*;

pub mod affine;
pub mod codec;
pub mod group;
pub mod point;
pub mod scalar;
pub mod xsk233;

use crate::scalar::{
    lemma_strip_trailing_zeros, limbs_le_bytes, scalar_bytes, strip_trailing_zeros, truncated,
    words_to_le_bytes, MAX_SCALAR_BYTES,
};

verus! {

/// The scalar in the form the curve engine multiplies by: its little-endian
/// bytes, cut to the engine's limit of 30, with trailing zeros removed so
/// that the engine's double-and-add runs over fewer bytes.
pub fn bigint_to_le_bytes(scalar: BigInt<4>) -> (r: Vec<u8>)
    ensures
        r@ == scalar_bytes(scalar.0@),
        r@.len() <= MAX_SCALAR_BYTES,
        r@.len() == 0 || r@.last() != 0,
{
    let limbs = scalar.0;
    let mut bytes = words_to_le_bytes(limbs.as_slice());
    bytes.truncate(MAX_SCALAR_BYTES);
    let ghost cut = bytes@;
    assert(cut == truncated(limbs_le_bytes(scalar.0@), MAX_SCALAR_BYTES as nat));
    loop
        invariant
            strip_trailing_zeros(bytes@) == strip_trailing_zeros(cut),
        ensures
            bytes@ == strip_trailing_zeros(cut),
        decreases bytes@.len(),
    {
        let n = bytes.len();
        if n > 0 && bytes[n - 1] == 0 {
            let ghost before = bytes@;
            bytes.pop();
            assert(bytes@ =~= before.drop_last());
        } else {
            break;
        }
    }
    proof {
        lemma_strip_trailing_zeros(cut);
    }
    bytes
}

} // verus!
