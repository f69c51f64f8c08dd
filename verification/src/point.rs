//! Group elements: the points of the secp256k1 curve, a cyclic group of prime
//! order.
//!
//! A point is held by its canonical encoding, the uncompressed SEC1 form: the
//! byte `0x04` and the two 32-byte affine coordinates, or the single byte `0x00`
//! for the identity. Every point has exactly one such encoding, so two points are
//! the same group element exactly when their encodings are the same bytes.

use crate::encoding::{be_nat, bytes_equal};
use crate::error::DecodeError;
use crate::scalar::{group_order, is_scalar_encoding, Scalar};
use elliptic_curve::sec1::{FromEncodedPoint, ToEncodedPoint};
use k256::{EncodedPoint, ProjectivePoint};
use vstd::prelude::*;

verus! {

/// What decoding a SEC1 byte string gives: the canonical encoding of the point
/// that the bytes denote, or `None` where they denote none. The bytes may be in
/// any SEC1 form, compressed ones among them.
pub uninterp spec fn sec1_decode(bytes: Seq<u8>) -> Option<Seq<u8>>;

/// The canonical encoding of `k` times the point that `point` encodes.
pub uninterp spec fn curve_mul(point: Seq<u8>, k: nat) -> Seq<u8>;

/// The canonical encoding of the sum of the points that `a` and `b` encode.
pub uninterp spec fn curve_add(a: Seq<u8>, b: Seq<u8>) -> Seq<u8>;

/// The encoding of the identity, the point at infinity.
pub open spec fn identity_encoding() -> Seq<u8> {
    seq![0u8]
}

/// The canonical encoding of the generator `G` of the group.
pub open spec fn generator_encoding() -> Seq<u8> {
    seq![
        0x04u8, 0x79, 0xbe, 0x66, 0x7e, 0xf9, 0xdc, 0xbb, 0xac, 0x55, 0xa0, 0x62, 0x95, 0xce, 0x87,
        0x0b, 0x07, 0x02, 0x9b, 0xfc, 0xdb, 0x2d, 0xce, 0x28, 0xd9, 0x59, 0xf2, 0x81, 0x5b, 0x16,
        0xf8, 0x17, 0x98, 0x48, 0x3a, 0xda, 0x77, 0x26, 0xa3, 0xc4, 0x65, 0x5d, 0xa4, 0xfb, 0xfc,
        0x0e, 0x11, 0x08, 0xa8, 0xfd, 0x17, 0xb4, 0x48, 0xa6, 0x85, 0x54, 0x19, 0x9c, 0x47, 0xd0,
        0x8f, 0xfb, 0x10, 0xd4, 0xb8,
    ]
}

/// The laws of a cyclic group of prime order `q`, said of the multiples of `p`:
/// a multiple of a multiple is the multiple by the product, the sum of two
/// multiples is the multiple by the sum, both modulo `q`, and, unless `p` is the
/// identity, different scalars give different multiples.
///
/// `k256` documents its `ProjectivePoint` as an element of a prime-order group
/// (`PrimeGroup`, `PrimeCurve`) with the scalars modulo `Secp256k1::ORDER`. These
/// are the laws of such a group, written for the encodings that this library
/// holds.
pub open spec fn obeys_group_laws(p: Seq<u8>) -> bool {
    let q = group_order();
    &&& forall|m: nat, k: nat|
        m < q && k < q ==> #[trigger] curve_mul(curve_mul(p, m), k) == curve_mul(
            p,
            ((m * k) % q) as nat,
        )
    &&& forall|m: nat, n: nat|
        m < q && n < q ==> #[trigger] curve_add(curve_mul(p, m), curve_mul(p, n)) == curve_mul(
            p,
            ((m + n) % q) as nat,
        )
    &&& p != identity_encoding() ==> forall|j: nat, k: nat|
        j < q && k < q && #[trigger] curve_mul(p, j) == #[trigger] curve_mul(p, k) ==> j == k
}

/// The shape of a canonical encoding: the single byte of the identity, or the
/// tag `0x04` followed by 64 bytes of coordinates. The first byte tells the
/// length.
pub open spec fn has_canonical_shape(p: Seq<u8>) -> bool {
    p == identity_encoding() || (p.len() == 65 && p[0] == 4u8)
}

/// Whether `p` is the canonical encoding of a group element: decoding it gives
/// back the same bytes, it has the shape of an uncompressed SEC1 encoding, and
/// its multiples obey the group laws.
///
/// Nothing in this library proves this of any byte string. It is what the
/// functions that call `k256` claim of every point they hand back, and so it is
/// what every statement about proofs rests on: secp256k1 is a group of prime
/// order, and `k256` computes in it.
pub open spec fn is_group_element(p: Seq<u8>) -> bool {
    &&& sec1_decode(p) == Some(p)
    &&& has_canonical_shape(p)
    &&& obeys_group_laws(p)
}

/// A point of the curve. Its view is its canonical encoding.
#[derive(Debug)]
pub struct Point {
    bytes: Vec<u8>,
}

impl View for Point {
    type V = Seq<u8>;

    closed spec fn view(&self) -> Seq<u8> {
        self.bytes@
    }
}

impl Clone for Point {
    fn clone(&self) -> (out: Self)
        ensures
            out@ == self@,
            out.wf(),
    {
        self.duplicate()
    }
}

/// `k256::EncodedPoint::from_bytes`, then `ProjectivePoint::from_encoded_point`
/// (of `FromEncodedPoint`), then `to_encoded_point(false)`: the bytes are
/// accepted where they have the tag and length of a SEC1 encoding and denote the
/// identity or a point on the curve, and what comes back is that point's
/// uncompressed encoding. Taken on trust: that the result is what `sec1_decode`
/// names, and that a point which was accepted is a group element, with all that
/// `is_group_element` says of one.
#[verifier::external_body]
fn k256_decode(bytes: &[u8]) -> (out: Option<Vec<u8>>)
    ensures
        out is None <==> sec1_decode(bytes@) is None,
        out matches Some(e) ==> sec1_decode(bytes@) == Some(e@) && is_group_element(e@),
{
    let Ok(encoded) = EncodedPoint::from_bytes(bytes) else {
        return None;
    };
    let decoded: Option<ProjectivePoint> = ProjectivePoint::from_encoded_point(&encoded).into();
    match decoded {
        Some(p) => Some(p.to_encoded_point(false).as_bytes().to_vec()),
        None => None,
    }
}

/// `k256::ProjectivePoint::GENERATOR`, encoded with `to_encoded_point(false)`:
/// the base point of secp256k1. Taken on trust: that its encoding is the 65
/// bytes of `generator_encoding`, and that it is a group element.
#[verifier::external_body]
fn k256_generator() -> (out: Vec<u8>)
    ensures
        out@ == generator_encoding(),
        is_group_element(out@),
{
    ProjectivePoint::GENERATOR.to_encoded_point(false).as_bytes().to_vec()
}

/// `*` of a `k256::ProjectivePoint` by a `k256::Scalar`: scalar multiplication in
/// the group. Taken on trust: that the result is what `curve_mul` names, and
/// that it is a group element again.
#[verifier::external_body]
fn k256_mul(point: &Vec<u8>, scalar: &Vec<u8>) -> (out: Vec<u8>)
    requires
        is_group_element(point@),
        is_scalar_encoding(scalar@),
    ensures
        out@ == curve_mul(point@, be_nat(scalar@)),
        is_group_element(out@),
{
    let p = ProjectivePoint::from_encoded_point(&EncodedPoint::from_bytes(point).unwrap()).unwrap();
    let k: [u8; 32] = scalar.as_slice().try_into().unwrap();
    let k = Option::<k256::Scalar>::from(elliptic_curve::PrimeField::from_repr(k.into())).unwrap();
    (p * k).to_encoded_point(false).as_bytes().to_vec()
}

/// `+` on `k256::ProjectivePoint`: the group operation. Taken on trust: that
/// the result is what `curve_add` names, and that it is a group element again.
#[verifier::external_body]
fn k256_add(a: &Vec<u8>, b: &Vec<u8>) -> (out: Vec<u8>)
    requires
        is_group_element(a@),
        is_group_element(b@),
    ensures
        out@ == curve_add(a@, b@),
        is_group_element(out@),
{
    let a = ProjectivePoint::from_encoded_point(&EncodedPoint::from_bytes(a).unwrap()).unwrap();
    let b = ProjectivePoint::from_encoded_point(&EncodedPoint::from_bytes(b).unwrap()).unwrap();
    (a + b).to_encoded_point(false).as_bytes().to_vec()
}

impl Point {
    /// What holds of every point: its bytes are the canonical encoding of a
    /// group element.
    #[verifier::type_invariant]
    pub open spec fn wf(&self) -> bool {
        is_group_element(self@)
    }

    /// The generator `G`, the default base point.
    pub fn generator() -> (out: Point)
        ensures
            out@ == generator_encoding(),
            out.wf(),
    {
        Point { bytes: k256_generator() }
    }

    /// Decodes a point from a SEC1 encoding.
    pub fn from_bytes(bytes: &[u8]) -> (out: Result<Point, DecodeError>)
        ensures
            out is Ok <==> sec1_decode(bytes@) is Some,
            out matches Ok(p) ==> sec1_decode(bytes@) == Some(p@) && p.wf(),
            out matches Err(e) ==> e == DecodeError::InvalidPoint,
    {
        match k256_decode(bytes) {
            Some(canonical) => Ok(Point { bytes: canonical }),
            None => Err(DecodeError::InvalidPoint),
        }
    }

    /// The canonical encoding of the point, borrowed.
    pub fn as_bytes(&self) -> (out: &Vec<u8>)
        ensures
            out@ == self@,
            is_group_element(out@),
    {
        proof {
            use_type_invariant(self);
        }
        &self.bytes
    }

    /// The canonical encoding of the point.
    pub fn to_bytes(&self) -> (out: Vec<u8>)
        ensures
            out@ == self@,
            is_group_element(out@),
    {
        proof {
            use_type_invariant(self);
        }
        let mut out: Vec<u8> = Vec::new();
        let mut i: usize = 0;
        while i < self.bytes.len()
            invariant
                i <= self.bytes.len(),
                out@ == self.bytes@.subrange(0, i as int),
            decreases self.bytes.len() - i,
        {
            out.push(self.bytes[i]);
            assert(out@ =~= self.bytes@.subrange(0, i + 1));
            i += 1;
        }
        assert(out@ =~= self.bytes@);
        out
    }

    /// A second copy of the point.
    pub fn duplicate(&self) -> (out: Point)
        ensures
            out@ == self@,
            out.wf(),
    {
        Point { bytes: self.to_bytes() }
    }

    /// `k` times the point.
    pub fn scalar_mul(&self, k: &Scalar) -> (out: Point)
        ensures
            out@ == curve_mul(self@, k@),
            out.wf(),
    {
        proof {
            use_type_invariant(self);
        }
        let scalar = k.to_bytes();
        Point { bytes: k256_mul(&self.bytes, &scalar) }
    }

    /// The sum of the two points.
    pub fn point_add(&self, other: &Point) -> (out: Point)
        ensures
            out@ == curve_add(self@, other@),
            out.wf(),
    {
        proof {
            use_type_invariant(self);
            use_type_invariant(other);
        }
        Point { bytes: k256_add(&self.bytes, &other.bytes) }
    }

    /// Whether the point is the identity of the group.
    pub fn is_identity(&self) -> (yes: bool)
        ensures
            yes == (self@ == identity_encoding()),
    {
        proof {
            use_type_invariant(self);
        }
        self.bytes.len() == 1
    }

    /// Whether two points are the same group element.
    pub fn eq(&self, other: &Point) -> (same: bool)
        ensures
            same == (self@ == other@),
    {
        bytes_equal(&self.bytes, &other.bytes)
    }
}

} // verus!
