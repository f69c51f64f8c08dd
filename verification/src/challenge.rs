//! The Fiat-Shamir challenge: a scalar derived by hashing the context of a proof
//! and the group elements it speaks of.
//!
//! The whole digest is used: its 32 bytes are read as one big-endian integer and
//! reduced modulo the group order. Nothing of it is cut off. The reduction
//! favours the smallest scalars by a margin of about 2^-128, which is accepted.

use crate::encoding::{append_bytes, be_nat};
use crate::point::{has_canonical_shape, Point};
use crate::scalar::{group_order, Scalar};
use k256::sha2::{Digest, Sha256};
use vstd::prelude::*;
use vstd::slice::slice_to_vec;
use vstd::string::StringSliceAdditionalSpecFns;

verus! {

/// The SHA-256 digest of `data`.
pub uninterp spec fn sha256(data: Seq<u8>) -> Seq<u8>;

/// `Sha256::digest` of `k256::sha2` (of `Digest`): the SHA-256 digest of the
/// bytes, which is 32 bytes long.
#[verifier::external_body]
fn sha256_digest(data: &Vec<u8>) -> (out: Vec<u8>)
    ensures
        out@ == sha256(data@),
        out@.len() == 32,
{
    Sha256::digest(data.as_slice()).to_vec()
}

/// The byte strings of `parts`, one after the other.
pub open spec fn concat_all(parts: Seq<Seq<u8>>) -> Seq<u8>
    decreases parts.len(),
{
    if parts.len() == 0 {
        Seq::empty()
    } else {
        concat_all(parts.drop_last()) + parts.last()
    }
}

/// The canonical encodings of the points, in their order.
pub open spec fn encodings(points: Seq<&Point>) -> Seq<Seq<u8>> {
    points.map_values(|p: &Point| p@)
}

/// What is hashed: the bytes of the session identifier, the encoding of the
/// party identifier, then the encoding of each point in the order given.
pub open spec fn transcript(sid: Seq<u8>, pid: Seq<u8>, points: Seq<Seq<u8>>) -> Seq<u8> {
    sid + pid + concat_all(points)
}

/// The challenge: the digest of the transcript, read as a big-endian integer and
/// reduced modulo the group order.
pub open spec fn challenge(sid: Seq<u8>, pid: Seq<u8>, points: Seq<Seq<u8>>) -> nat {
    be_nat(sha256(transcript(sid, pid, points))) % group_order()
}

/// Taking one more part appends that part.
proof fn lemma_concat_all_take(parts: Seq<Seq<u8>>, i: int)
    requires
        0 <= i < parts.len(),
    ensures
        concat_all(parts.take(i + 1)) == concat_all(parts.take(i)) + parts[i],
{
    assert(parts.take(i + 1).drop_last() =~= parts.take(i));
}

/// Derives the challenge scalar that binds a proof to a session `sid`, a party
/// `pid` and an ordered list of group elements.
pub fn derive_challenge(sid: &str, pid: &Scalar, points: &[&Point]) -> (c: Scalar)
    ensures
        c@ == challenge(sid.spec_bytes(), pid.encoding(), encodings(points@)),
        c.wf(),
{
    let mut data: Vec<u8> = slice_to_vec(sid.as_bytes());
    append_bytes(&mut data, pid.as_bytes());
    let ghost head = sid.spec_bytes() + pid.encoding();
    let ghost parts = encodings(points@);
    let mut i: usize = 0;
    while i < points.len()
        invariant
            i <= points.len(),
            parts == encodings(points@),
            data@ == head + concat_all(parts.take(i as int)),
        decreases points.len() - i,
    {
        proof {
            lemma_concat_all_take(parts, i as int);
        }
        append_bytes(&mut data, points[i].as_bytes());
        assert(data@ =~= head + concat_all(parts.take(i + 1)));
        i += 1;
    }
    assert(parts.take(points.len() as int) =~= parts);
    let digest = sha256_digest(&data);
    Scalar::reduce(&digest)
}

/// The challenge is a function of what is hashed: the same session, party and
/// points, in the same order, give the same challenge.
pub proof fn lemma_challenge_deterministic(
    sid1: Seq<u8>,
    pid1: Seq<u8>,
    points1: Seq<Seq<u8>>,
    sid2: Seq<u8>,
    pid2: Seq<u8>,
    points2: Seq<Seq<u8>>,
)
    requires
        sid1 == sid2,
        pid1 == pid2,
        points1 == points2,
    ensures
        challenge(sid1, pid1, points1) == challenge(sid2, pid2, points2),
{
}

/// The parts one after the other are the first part, then the rest.
proof fn lemma_concat_all_front(parts: Seq<Seq<u8>>)
    requires
        parts.len() > 0,
    ensures
        concat_all(parts) == parts.first() + concat_all(parts.drop_first()),
    decreases parts.len(),
{
    if parts.len() == 1 {
        assert(parts.drop_last() =~= Seq::<Seq<u8>>::empty());
        assert(parts.drop_first() =~= Seq::<Seq<u8>>::empty());
        assert(concat_all(parts) =~= parts.first() + concat_all(parts.drop_first()));
    } else {
        let init = parts.drop_last();
        let rest = parts.drop_first();
        lemma_concat_all_front(init);
        assert(init.drop_first() =~= rest.drop_last());
        assert(concat_all(parts) =~= parts.first() + concat_all(rest));
    }
}

/// The encodings of points can be told apart again after they were joined:
/// two lists of canonical encodings that give the same bytes are the same list.
pub proof fn lemma_concat_all_injective(ps: Seq<Seq<u8>>, qs: Seq<Seq<u8>>)
    requires
        forall|i: int| 0 <= i < ps.len() ==> has_canonical_shape(#[trigger] ps[i]),
        forall|i: int| 0 <= i < qs.len() ==> has_canonical_shape(#[trigger] qs[i]),
        concat_all(ps) == concat_all(qs),
    ensures
        ps == qs,
    decreases ps.len(),
{
    if ps.len() == 0 {
        if qs.len() > 0 {
            lemma_concat_all_front(qs);
            assert(has_canonical_shape(qs[0]));
            assert(concat_all(qs).len() > 0);
        }
        assert(ps =~= qs);
    } else {
        lemma_concat_all_front(ps);
        assert(has_canonical_shape(ps[0]));
        if qs.len() == 0 {
            assert(concat_all(ps).len() > 0);
        } else {
            lemma_concat_all_front(qs);
            assert(has_canonical_shape(qs[0]));
            let joined = concat_all(ps);
            let p = ps[0];
            let q = qs[0];
            let prest = concat_all(ps.drop_first());
            let qrest = concat_all(qs.drop_first());
            assert(joined[0] == p[0]);
            assert(joined[0] == q[0]);
            assert(p.len() == q.len());
            assert(p =~= joined.subrange(0, p.len() as int));
            assert(q =~= joined.subrange(0, q.len() as int));
            assert(prest =~= joined.subrange(p.len() as int, joined.len() as int));
            assert(qrest =~= joined.subrange(q.len() as int, joined.len() as int));
            assert forall|i: int| 0 <= i < ps.drop_first().len() implies has_canonical_shape(
                #[trigger] ps.drop_first()[i],
            ) by {
                assert(ps.drop_first()[i] == ps[i + 1]);
            }
            assert forall|i: int| 0 <= i < qs.drop_first().len() implies has_canonical_shape(
                #[trigger] qs.drop_first()[i],
            ) by {
                assert(qs.drop_first()[i] == qs[i + 1]);
            }
            lemma_concat_all_injective(ps.drop_first(), qs.drop_first());
            assert(ps =~= seq![p] + ps.drop_first());
            assert(qs =~= seq![q] + qs.drop_first());
        }
    }
}

/// What is hashed binds the points and their order: in one session and for one
/// party, two lists of points give the same transcript only if they are the
/// same points in the same order. So the challenges of two different lists can
/// coincide only where SHA-256, or its reduction modulo the group order, does.
pub proof fn lemma_transcript_binds_points(
    sid: Seq<u8>,
    pid: Seq<u8>,
    ps: Seq<Seq<u8>>,
    qs: Seq<Seq<u8>>,
)
    requires
        forall|i: int| 0 <= i < ps.len() ==> has_canonical_shape(#[trigger] ps[i]),
        forall|i: int| 0 <= i < qs.len() ==> has_canonical_shape(#[trigger] qs[i]),
        transcript(sid, pid, ps) == transcript(sid, pid, qs),
    ensures
        ps == qs,
{
    let head = sid + pid;
    let a = transcript(sid, pid, ps);
    let b = transcript(sid, pid, qs);
    assert(concat_all(ps) =~= a.subrange(head.len() as int, a.len() as int));
    assert(concat_all(qs) =~= b.subrange(head.len() as int, b.len() as int));
    lemma_concat_all_injective(ps, qs);
}

} // verus!
