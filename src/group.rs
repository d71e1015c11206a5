//! A point in the form that sums and multiples are built in.
use crate::affine::Xsk233Affine;
use crate::codec::CodecError;
use crate::point::Xsk233Point;
use vstd::prelude::*;
use vstd::std_specs::convert::FromSpec;

verus! {

/// A point of the xsk233 group, used for running sums and scalar multiples.
/// It holds the same engine form as `Xsk233Affine`, so converting between the
/// two costs nothing.
#[derive(Clone, Copy)]
pub struct Xsk233Projective(Xsk233Point);

impl Xsk233Projective {
    /// The engine's form of the point held.
    pub closed spec fn point(&self) -> Xsk233Point {
        self.0
    }

    /// Wraps a point of the engine, which is taken to be valid.
    pub fn new_unchecked(point: Xsk233Point) -> (r: Self)
        ensures
            r.point() == point,
    {
        Self(point)
    }

    pub fn inner(&self) -> (r: &Xsk233Point)
        ensures
            *r == self.point(),
    {
        &self.0
    }

    pub fn into_inner(self) -> (r: Xsk233Point)
        ensures
            r == self.point(),
    {
        self.0
    }

    /// Two values that hold the same engine form are the same value.
    pub proof fn lemma_point_determines(a: Self, b: Self)
        requires
            a.point() == b.point(),
        ensures
            a == b,
    {
    }
}

impl From<Xsk233Affine> for Xsk233Projective {
    fn from(p: Xsk233Affine) -> (r: Xsk233Projective) {
        Self(p.into_inner())
    }
}

impl vstd::std_specs::convert::FromSpecImpl<Xsk233Affine> for Xsk233Projective {
    open spec fn obeys_from_spec() -> bool {
        true
    }

    closed spec fn from_spec(p: Xsk233Affine) -> Xsk233Projective {
        Xsk233Projective(p.point())
    }
}

impl Xsk233Projective {
    /// Converting a base to a running result keeps the engine form as it is.
    pub proof fn lemma_from_affine(p: Xsk233Affine)
        ensures
            Xsk233Projective::from_spec(p).point() == p.point(),
    {
    }
}

impl Xsk233Projective {
    /// The outcome of the engine's decoder: it reports 0 when the 30 bytes it
    /// was given encode no point (not on the curve, or not canonical), and
    /// any other value together with the decoded point.
    pub fn from_decoded(success: u32, point: Xsk233Point) -> (r: Result<Self, CodecError>)
        ensures
            success == 0 ==> r == Err::<Self, CodecError>(CodecError::InvalidEncoding),
            success != 0 ==> r is Ok && r->Ok_0.point() == point,
    {
        if success == 0 {
            return Err(CodecError::InvalidEncoding);
        }
        Ok(Self(point))
    }

    /// A point that was built by the engine, decoded or computed, is valid:
    /// the decoder already rejects every invalid encoding.
    pub fn check(&self) -> (r: Result<(), CodecError>)
        ensures
            r == Ok::<(), CodecError>(()),
    {
        Xsk233Affine::from(*self).check()
    }

    /// Converts a batch of running results to bases. Both forms hold the same
    /// engine form, so each point is handed over as it is, in order.
    pub fn normalize_batch(v: &[Xsk233Projective]) -> (r: Vec<Xsk233Affine>)
        ensures
            r@.len() == v@.len(),
            forall|i: int| 0 <= i < v@.len() ==> #[trigger] r@[i].point() == v@[i].point(),
    {
        let mut out: Vec<Xsk233Affine> = Vec::with_capacity(v.len());
        let mut i: usize = 0;
        while i < v.len()
            invariant
                i <= v@.len(),
                out@.len() == i,
                forall|j: int| 0 <= j < i ==> #[trigger] out@[j].point() == v@[j].point(),
            decreases v@.len() - i,
        {
            out.push(Xsk233Affine::new_unchecked(v[i].into_inner()));
            i = i + 1;
        }
        out
    }
}

/// A base and a running result made from one another hold the same engine
/// form, so the engine, and every comparison made through it, sees the same
/// point in both: converting one way and back gives the value started from.
pub proof fn lemma_representations_agree(a: Xsk233Affine, p: Xsk233Projective)
    ensures
        Xsk233Projective::from_spec(a).point() == a.point(),
        Xsk233Affine::from_spec(p).point() == p.point(),
        Xsk233Affine::from_spec(Xsk233Projective::from_spec(a)) == a,
        Xsk233Projective::from_spec(Xsk233Affine::from_spec(p)) == p,
{
    Xsk233Projective::lemma_from_affine(a);
    Xsk233Affine::lemma_from_group(p);
    Xsk233Affine::lemma_from_group(Xsk233Projective::from_spec(a));
    Xsk233Projective::lemma_from_affine(Xsk233Affine::from_spec(p));
    Xsk233Affine::lemma_point_determines(Xsk233Affine::from_spec(Xsk233Projective::from_spec(a)), a);
    Xsk233Projective::lemma_point_determines(Xsk233Projective::from_spec(Xsk233Affine::from_spec(p)), p);
}

} // verus!
