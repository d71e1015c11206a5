//! The curve engine's in-memory form of a point.
use vstd::prelude::*;

verus! {

/// A point as the curve engine stores it: sixteen words whose meaning only
/// the engine knows. No coordinates can be read from it, and two different
/// word patterns may stand for the same point, so it is compared only
/// through the engine.
#[derive(Clone, Copy, Debug)]
pub struct Xsk233Point {
    pub opaque: [u64; 16],
}

} // verus!
