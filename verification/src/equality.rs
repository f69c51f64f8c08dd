//! `==` on scalars, points and proofs.

use crate::point::Point;
use crate::scalar::Scalar;
use crate::schnorr::DLogProof;
use vstd::prelude::*;
use vstd::std_specs::cmp::PartialEqSpecImpl;

verus! {

impl PartialEq for Scalar {
    fn eq(&self, other: &Scalar) -> (same: bool) {
        Scalar::eq(self, other)
    }
}

impl PartialEqSpecImpl for Scalar {
    open spec fn obeys_eq_spec() -> bool {
        true
    }

    open spec fn eq_spec(&self, other: &Scalar) -> bool {
        self@ == other@
    }
}

impl PartialEq for Point {
    fn eq(&self, other: &Point) -> (same: bool) {
        Point::eq(self, other)
    }
}

impl PartialEqSpecImpl for Point {
    open spec fn obeys_eq_spec() -> bool {
        true
    }

    open spec fn eq_spec(&self, other: &Point) -> bool {
        self@ == other@
    }
}

impl PartialEq for DLogProof {
    fn eq(&self, other: &DLogProof) -> (same: bool) {
        DLogProof::eq(self, other)
    }
}

impl PartialEqSpecImpl for DLogProof {
    open spec fn obeys_eq_spec() -> bool {
        true
    }

    open spec fn eq_spec(&self, other: &DLogProof) -> bool {
        self.t@ == other.t@ && self.s@ == other.s@
    }
}

} // verus!
