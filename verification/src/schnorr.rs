//! The proof of knowledge itself: `prove` makes one, `verify` checks one.
//!
//! The prover knows `x` with `y = x·B` for a base point `B`. It commits to
//! `t = r·B` for a fresh random `r`, derives the challenge `c` from the context
//! and from `B`, `y` and `t`, and answers with `s = r + c·x` modulo the group
//! order. The verifier derives the same `c` and accepts when `s·B = t + c·y`.

use crate::challenge::{challenge, derive_challenge, encodings};
use crate::point::{
    curve_add, curve_mul, generator_encoding, identity_encoding, is_group_element,
    obeys_group_laws, Point,
};
use crate::scalar::{group_order, Scalar};
use vstd::arithmetic::div_mod::{lemma_add_mod_noop_right, lemma_mod_equivalence};
use vstd::prelude::*;
use vstd::string::StringSliceAdditionalSpecFns;

verus! {

/// The base point that a proof is made and checked against: the one given, or
/// the generator of the group where none is given.
pub open spec fn resolve_base(base_point: Option<Point>) -> Seq<u8> {
    match base_point {
        Some(b) => b@,
        None => generator_encoding(),
    }
}

/// The challenge of a proof with commitment `t` for the public key `y` over the
/// base point `base`, in the session `sid` of the party `pid`: the base point,
/// the public key and the commitment are hashed in that order.
pub open spec fn proof_challenge(
    sid: Seq<u8>,
    pid: Seq<u8>,
    base: Seq<u8>,
    y: Seq<u8>,
    t: Seq<u8>,
) -> nat {
    challenge(sid, pid, seq![base, y, t])
}

/// The response to the challenge `c`, from the nonce `r` and the secret `x`.
pub open spec fn response(r: nat, c: nat, x: nat) -> nat {
    ((r + c * x) % group_order()) as nat
}

/// The equation that the verifier checks: `s·B = t + c·y`.
pub open spec fn verification_equation(
    base: Seq<u8>,
    y: Seq<u8>,
    t: Seq<u8>,
    s: nat,
    c: nat,
) -> bool {
    curve_mul(base, s) == curve_add(t, curve_mul(y, c))
}

/// A proof of knowledge of the discrete logarithm of a public key.
#[derive(Debug)]
pub struct DLogProof {
    /// The commitment, `r·B` for the prover's nonce `r`.
    pub t: Point,
    /// The response, `r + c·x` modulo the group order.
    pub s: Scalar,
}

impl Clone for DLogProof {
    fn clone(&self) -> (out: Self)
        ensures
            out.t@ == self.t@,
            out.s@ == self.s@,
            out.wf(),
    {
        DLogProof { t: self.t.clone(), s: self.s.clone() }
    }
}

impl DLogProof {
    /// Both parts of the proof are what their types say.
    pub open spec fn wf(&self) -> bool {
        self.t.wf() && self.s.wf()
    }

    /// Whether this is the proof that an honest prover with the secret `x` and
    /// the nonce `r` makes for the public key `y`.
    pub open spec fn made_from(
        &self,
        sid: Seq<u8>,
        pid: Seq<u8>,
        x: nat,
        y: Seq<u8>,
        base: Seq<u8>,
        r: nat,
    ) -> bool {
        &&& self.t@ == curve_mul(base, r)
        &&& self.s@ == response(r, proof_challenge(sid, pid, base, y, self.t@), x)
    }

    /// Whether the verifier accepts this proof for the public key `y`.
    pub open spec fn accepted(&self, sid: Seq<u8>, pid: Seq<u8>, y: Seq<u8>, base: Seq<u8>) -> bool {
        verification_equation(
            base,
            y,
            self.t@,
            self.s@,
            proof_challenge(sid, pid, base, y, self.t@),
        )
    }

    /// The proof with the commitment `t` and the response `s`.
    pub fn init(t: Point, s: Scalar) -> (out: DLogProof)
        ensures
            out.t == t,
            out.s == s,
    {
        DLogProof { t, s }
    }

    /// Makes a proof from a nonce that the caller supplies. The nonce must be
    /// fresh, uniformly random and never used for a second proof: two proofs from
    /// one nonce give the secret away.
    pub fn prove_with_nonce(
        sid: &str,
        pid: Scalar,
        x: Scalar,
        y: Point,
        base_point: Option<Point>,
        r: Scalar,
    ) -> (out: DLogProof)
        ensures
            out.wf(),
            out.made_from(
                sid.spec_bytes(),
                pid.encoding(),
                x@,
                y@,
                resolve_base(base_point),
                r@,
            ),
            y@ == curve_mul(resolve_base(base_point), x@) ==> out.accepted(
                sid.spec_bytes(),
                pid.encoding(),
                y@,
                resolve_base(base_point),
            ),
    {
        let base = match base_point {
            Some(b) => b,
            None => Point::generator(),
        };
        let t = base.scalar_mul(&r);
        let mut points: Vec<&Point> = Vec::new();
        points.push(&base);
        points.push(&y);
        points.push(&t);
        assert(encodings(points@) =~= seq![base@, y@, t@]);
        let c = derive_challenge(sid, &pid, points.as_slice());
        let cx = c.mul_mod(&x);
        let s = r.add_mod(&cx);
        proof {
            use_type_invariant(&base);
            use_type_invariant(&x);
            use_type_invariant(&r);
            use_type_invariant(&c);
            lemma_add_mod_noop_right(r@ as int, (c@ * x@) as int, group_order() as int);
            if y@ == curve_mul(base@, x@) {
                lemma_honest_response_verifies(base@, x@, r@, c@);
            }
        }
        DLogProof::init(t, s)
    }

    /// Makes a proof that the caller knows `x` with `y = x·B`, where `B` is
    /// `base_point`, or the generator where none is given. The nonce is drawn
    /// afresh from the operating system's secure generator.
    pub fn prove(sid: &str, pid: Scalar, x: Scalar, y: Point, base_point: Option<Point>) -> (out:
        DLogProof)
        ensures
            out.wf(),
            exists|r: nat|
                r < group_order() && #[trigger] out.made_from(
                    sid.spec_bytes(),
                    pid.encoding(),
                    x@,
                    y@,
                    resolve_base(base_point),
                    r,
                ),
            y@ == curve_mul(resolve_base(base_point), x@) ==> out.accepted(
                sid.spec_bytes(),
                pid.encoding(),
                y@,
                resolve_base(base_point),
            ),
    {
        let r = Scalar::random();
        let ghost nonce = r@;
        let ghost pid_bytes = pid.encoding();
        let ghost secret = x@;
        let ghost key = y@;
        proof {
            use_type_invariant(&r);
        }
        let out = DLogProof::prove_with_nonce(sid, pid, x, y, base_point, r);
        assert(out.made_from(
            sid.spec_bytes(),
            pid_bytes,
            secret,
            key,
            resolve_base(base_point),
            nonce,
        ));
        out
    }

    /// Checks the proof for the public key `y` in the given context. A proof
    /// that does not fit gives `false`; nothing else can go wrong.
    pub fn verify(&self, sid: &str, pid: Scalar, y: Point, base_point: Option<Point>) -> (ok: bool)
        ensures
            ok == self.accepted(sid.spec_bytes(), pid.encoding(), y@, resolve_base(base_point)),
    {
        let base = match base_point {
            Some(b) => b,
            None => Point::generator(),
        };
        let mut points: Vec<&Point> = Vec::new();
        points.push(&base);
        points.push(&y);
        points.push(&self.t);
        assert(encodings(points@) =~= seq![base@, y@, self.t@]);
        let c = derive_challenge(sid, &pid, points.as_slice());
        let lhs = base.scalar_mul(&self.s);
        let rhs = self.t.point_add(&y.scalar_mul(&c));
        lhs.eq(&rhs)
    }

    /// Whether two proofs have the same commitment and the same response.
    pub fn eq(&self, other: &DLogProof) -> (same: bool)
        ensures
            same == (self.t@ == other.t@ && self.s@ == other.s@),
    {
        self.t.eq(&other.t) && self.s.eq(&other.s)
    }
}

/// The algebra behind completeness: for a secret `x`, a nonce `r` and any
/// challenge `c`, the response `r + c·x` satisfies the verifier's equation for
/// the public key `x·B` and the commitment `r·B`.
pub proof fn lemma_honest_response_verifies(base: Seq<u8>, x: nat, r: nat, c: nat)
    requires
        is_group_element(base),
        x < group_order(),
        r < group_order(),
        c < group_order(),
    ensures
        verification_equation(
            base,
            curve_mul(base, x),
            curve_mul(base, r),
            response(r, c, x),
            c,
        ),
{
    let q = group_order();
    let xc = ((x * c) % q) as nat;
    assert(obeys_group_laws(base));
    assert(curve_mul(curve_mul(base, x), c) == curve_mul(base, xc));
    assert(curve_add(curve_mul(base, r), curve_mul(base, xc)) == curve_mul(
        base,
        ((r + xc) % q) as nat,
    ));
    lemma_add_mod_noop_right(r as int, (x * c) as int, q as int);
    assert(x * c == c * x) by (nonlinear_arith);
}

/// Completeness. A proof made honestly, from the secret `x` of the public key
/// `y = x·B` and any nonce `r`, is accepted in the context it was made for.
pub proof fn lemma_completeness(
    made: DLogProof,
    sid: Seq<u8>,
    pid: Scalar,
    x: Scalar,
    y: Point,
    base: Point,
    r: Scalar,
)
    requires
        x.wf(),
        r.wf(),
        base.wf(),
        y@ == curve_mul(base@, x@),
        made.made_from(sid, pid.encoding(), x@, y@, base@, r@),
    ensures
        made.accepted(sid, pid.encoding(), y@, base@),
{
    let c = proof_challenge(sid, pid.encoding(), base@, y@, made.t@);
    lemma_honest_response_verifies(base@, x@, r@, c);
}

/// Two numbers that give the same remainder after the same number was added to
/// both give the same remainder themselves.
proof fn lemma_mod_cancel(r: int, a: int, b: int, m: int)
    requires
        0 < m,
        (r + a) % m == (r + b) % m,
    ensures
        a % m == b % m,
{
    lemma_mod_equivalence(r + a, r + b, m);
    lemma_mod_equivalence(a, b, m);
}

/// Context binding. An honest proof for the public key `y = x·B` is accepted
/// in another session, or for another party, exactly when that context leads to
/// the same challenge. So a proof carries over to another context only where the
/// hash does. This is said of base points and public keys other than the
/// identity.
pub proof fn lemma_context_binding(
    made: DLogProof,
    sid: Seq<u8>,
    pid: Seq<u8>,
    other_sid: Seq<u8>,
    other_pid: Seq<u8>,
    x: Scalar,
    y: Point,
    base: Point,
    r: Scalar,
)
    requires
        x.wf(),
        r.wf(),
        y.wf(),
        base.wf(),
        base@ != identity_encoding(),
        y@ != identity_encoding(),
        y@ == curve_mul(base@, x@),
        made.made_from(sid, pid, x@, y@, base@, r@),
    ensures
        made.accepted(other_sid, other_pid, y@, base@) <==> proof_challenge(
            other_sid,
            other_pid,
            base@,
            y@,
            made.t@,
        ) == proof_challenge(sid, pid, base@, y@, made.t@),
{
    let q = group_order();
    let c1 = proof_challenge(sid, pid, base@, y@, made.t@);
    let c2 = proof_challenge(other_sid, other_pid, base@, y@, made.t@);
    lemma_honest_response_verifies(base@, x@, r@, c2);
    if made.accepted(other_sid, other_pid, y@, base@) {
        // Both responses satisfy the equation of the other context, so they
        // are one response.
        assert(obeys_group_laws(base@));
        assert(curve_mul(base@, made.s@) == curve_mul(base@, response(r@, c2, x@)));
        assert(made.s@ == response(r@, c2, x@));
        lemma_mod_cancel(r@ as int, (c1 * x@) as int, (c2 * x@) as int, q as int);
        // Then the two challenges give the same multiple of the public key.
        assert(c1 * x@ == x@ * c1 && c2 * x@ == x@ * c2) by (nonlinear_arith);
        assert(curve_mul(curve_mul(base@, x@), c1) == curve_mul(base@, ((x@ * c1) % q) as nat));
        assert(curve_mul(curve_mul(base@, x@), c2) == curve_mul(base@, ((x@ * c2) % q) as nat));
        assert(obeys_group_laws(y@));
        assert(curve_mul(y@, c1) == curve_mul(y@, c2));
    }
}

/// Base-point sensitivity. An honest proof over the base `B`, checked over
/// another base `k·B`, is accepted exactly when `k·s` and `r + c'·x` agree
/// modulo the group order, where `c'` is the challenge over that other base.
/// So whether a proof is accepted over a base it was not made for hangs on the
/// value that the hash gives for `c'`.
pub proof fn lemma_base_point_sensitivity(
    made: DLogProof,
    sid: Seq<u8>,
    pid: Seq<u8>,
    x: Scalar,
    y: Point,
    base: Point,
    other: Point,
    k: Scalar,
    r: Scalar,
)
    requires
        x.wf(),
        r.wf(),
        k.wf(),
        made.wf(),
        base.wf(),
        base@ != identity_encoding(),
        other@ == curve_mul(base@, k@),
        y@ == curve_mul(base@, x@),
        made.made_from(sid, pid, x@, y@, base@, r@),
    ensures
        made.accepted(sid, pid, y@, other@) <==> (k@ * made.s@) % group_order() == (r@
            + proof_challenge(sid, pid, other@, y@, made.t@) * x@) % group_order(),
{
    let q = group_order();
    let c = proof_challenge(sid, pid, other@, y@, made.t@);
    let xc = ((x@ * c) % q) as nat;
    let left = ((k@ * made.s@) % q) as nat;
    let right = ((r@ + xc) % q) as nat;
    assert(obeys_group_laws(base@));
    assert(curve_mul(curve_mul(base@, k@), made.s@) == curve_mul(base@, left));
    assert(curve_mul(curve_mul(base@, x@), c) == curve_mul(base@, xc));
    assert(curve_add(curve_mul(base@, r@), curve_mul(base@, xc)) == curve_mul(base@, right));
    lemma_add_mod_noop_right(r@ as int, (x@ * c) as int, q as int);
    assert(x@ * c == c * x@) by (nonlinear_arith);
    assert(made.accepted(sid, pid, y@, other@) <==> curve_mul(base@, left) == curve_mul(
        base@,
        right,
    ));
}

/// For one commitment in one context at most one response is accepted, unless
/// the base point is the identity. So a proof whose response was changed to
/// another scalar is rejected.
pub proof fn lemma_response_unique(
    first: DLogProof,
    second: DLogProof,
    sid: Seq<u8>,
    pid: Seq<u8>,
    y: Seq<u8>,
    base: Point,
)
    requires
        first.wf(),
        second.wf(),
        base.wf(),
        base@ != identity_encoding(),
        first.t@ == second.t@,
        first.accepted(sid, pid, y, base@),
        second.accepted(sid, pid, y, base@),
    ensures
        first.s@ == second.s@,
{
    assert(obeys_group_laws(base@));
    assert(curve_mul(base@, first.s@) == curve_mul(base@, second.s@));
}

} // verus!
