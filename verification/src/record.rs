//! The form in which a proof travels: two byte strings, the encoding of the
//! commitment and the encoding of the response.

use crate::encoding::{be_nat, lemma_be_nat_injective};
use crate::error::DecodeError;
use crate::point::{identity_encoding, is_group_element, sec1_decode, Point};
use crate::scalar::{group_order, is_scalar_encoding, Scalar};
use crate::schnorr::{lemma_response_unique, DLogProof};
use vstd::prelude::*;

verus! {

/// A proof as it is sent: `t` is the uncompressed SEC1 encoding of the
/// commitment, `s` the 32-byte big-endian encoding of the response.
#[derive(Clone, Debug, PartialEq, Eq)]
pub struct ProofRecord {
    pub t: Vec<u8>,
    pub s: Vec<u8>,
}

/// What reading a record gives: the commitment's canonical encoding and the
/// response's value, or the reason for which the record is refused. The
/// commitment is looked at first.
pub open spec fn decode_record(t: Seq<u8>, s: Seq<u8>) -> Result<(Seq<u8>, nat), DecodeError> {
    if sec1_decode(t) is None {
        Err(DecodeError::InvalidPoint)
    } else if s.len() != 32 {
        Err(DecodeError::ScalarLength)
    } else if be_nat(s) >= group_order() {
        Err(DecodeError::ScalarOutOfRange)
    } else {
        Ok((sec1_decode(t)->Some_0, be_nat(s)))
    }
}

impl DLogProof {
    /// The record of the proof: the encodings of its two parts.
    pub fn to_record(&self) -> (out: ProofRecord)
        ensures
            out.t@ == self.t@,
            out.s@ == self.s.encoding(),
            is_group_element(out.t@),
            is_scalar_encoding(out.s@),
    {
        ProofRecord { t: self.t.to_bytes(), s: self.s.to_bytes() }
    }

    /// Reads a proof from a record. A record whose `t` is not the encoding of a
    /// point, or whose `s` is not the encoding of a scalar, is refused.
    pub fn from_record(record: &ProofRecord) -> (out: Result<DLogProof, DecodeError>)
        ensures
            match decode_record(record.t@, record.s@) {
                Ok((t, s)) => out matches Ok(p) && p.t@ == t && p.s@ == s && p.s.encoding()
                    == record.s@ && p.wf(),
                Err(e) => out matches Err(f) && e == f,
            },
    {
        let t = match Point::from_bytes(record.t.as_slice()) {
            Ok(t) => t,
            Err(e) => {
                return Err(e);
            },
        };
        let s = match Scalar::from_bytes(record.s.as_slice()) {
            Ok(s) => s,
            Err(e) => {
                return Err(e);
            },
        };
        Ok(DLogProof::init(t, s))
    }
}

/// Round trip. The record of a proof reads back as the same proof: the same
/// commitment and the same response.
pub proof fn lemma_record_round_trip(p: DLogProof)
    requires
        p.wf(),
    ensures
        decode_record(p.t@, p.s.encoding()) == Ok::<(Seq<u8>, nat), DecodeError>((p.t@, p.s@)),
{
}

/// A proof that was read back from its own record is accepted exactly where the
/// proof itself is.
pub proof fn lemma_round_trip_keeps_acceptance(
    p: DLogProof,
    read: DLogProof,
    sid: Seq<u8>,
    pid: Seq<u8>,
    y: Seq<u8>,
    base: Seq<u8>,
)
    requires
        p.wf(),
        decode_record(p.t@, p.s.encoding()) == Ok::<(Seq<u8>, nat), DecodeError>(
            (read.t@, read.s@),
        ),
    ensures
        read.t@ == p.t@,
        read.s@ == p.s@,
        read.accepted(sid, pid, y, base) == p.accepted(sid, pid, y, base),
{
}

/// A record whose response bytes were changed does not pass: either it is
/// refused when read, or the proof read from it is rejected wherever the
/// untouched proof was accepted, unless the base point is the identity.
pub proof fn lemma_tampered_record_rejected(
    p: DLogProof,
    tampered_s: Seq<u8>,
    read: DLogProof,
    sid: Seq<u8>,
    pid: Seq<u8>,
    y: Seq<u8>,
    base: Point,
)
    requires
        p.wf(),
        read.wf(),
        base.wf(),
        base@ != identity_encoding(),
        tampered_s != p.s.encoding(),
        decode_record(p.t@, tampered_s) == Ok::<(Seq<u8>, nat), DecodeError>((read.t@, read.s@)),
        p.accepted(sid, pid, y, base@),
    ensures
        !read.accepted(sid, pid, y, base@),
{
    if read.accepted(sid, pid, y, base@) {
        lemma_response_unique(p, read, sid, pid, y, base);
        lemma_be_nat_injective(tampered_s, p.s.encoding());
    }
}

} // verus!
