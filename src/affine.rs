//! A point in the form that multiplications start from.
use crate::codec::CodecError;
use crate::group::Xsk233Projective;
use crate::point::Xsk233Point;
use vstd::prelude::*;
use vstd::std_specs::convert::FromSpec;

verus! {

/// A point of the xsk233 group, used where a fixed base is wanted. It holds
/// the engine's form of the point, as `Xsk233Projective` does; the two types
/// keep apart, in callers' code, a base and a running result.
#[derive(Clone, Copy)]
pub struct Xsk233Affine(Xsk233Point);

impl Xsk233Affine {
    /// The engine's form of the point held.
    pub closed spec fn point(&self) -> Xsk233Point {
        self.0
    }

    /// Wraps a point of the engine, which is taken to be valid.
    pub fn new_unchecked(point: Xsk233Point) -> (r: Self)
        ensures
            r.point() == point,
    {
        Self(point)
    }

    pub fn inner(&self) -> (r: &Xsk233Point)
        ensures
            *r == self.point(),
    {
        &self.0
    }

    pub fn into_inner(self) -> (r: Xsk233Point)
        ensures
            r == self.point(),
    {
        self.0
    }

    /// A point that was built by the engine, decoded or computed, is valid:
    /// the decoder already rejects every invalid encoding.
    pub fn check(&self) -> (r: Result<(), CodecError>)
        ensures
            r == Ok::<(), CodecError>(()),
    {
        Ok(())
    }

    /// Two values that hold the same engine form are the same value.
    pub proof fn lemma_point_determines(a: Self, b: Self)
        requires
            a.point() == b.point(),
        ensures
            a == b,
    {
    }
}

impl From<Xsk233Projective> for Xsk233Affine {
    fn from(p: Xsk233Projective) -> (r: Xsk233Affine) {
        Self(p.into_inner())
    }
}

impl vstd::std_specs::convert::FromSpecImpl<Xsk233Projective> for Xsk233Affine {
    open spec fn obeys_from_spec() -> bool {
        true
    }

    closed spec fn from_spec(p: Xsk233Projective) -> Xsk233Affine {
        Xsk233Affine(p.point())
    }
}

impl Xsk233Affine {
    /// Converting a running result to a base keeps the engine form as it is.
    pub proof fn lemma_from_group(p: Xsk233Projective)
        ensures
            Xsk233Affine::from_spec(p).point() == p.point(),
    {
    }
}

} // verus!
