//! Scalars: the integers modulo the order of the secp256k1 group.
//!
//! A scalar is a full-width value of 256 bits. It is never narrowed to a machine
//! word, and every result of its arithmetic is reduced modulo the group order:
//! no scalar is ever left unreduced. The arithmetic itself is `k256`'s.

use crate::encoding::{be32_from_u64, be_nat, bytes_equal, lemma_be_nat_injective};
use crate::error::DecodeError;
use elliptic_curve::ops::Reduce;
use elliptic_curve::rand_core::OsRng;
use elliptic_curve::{Field, PrimeField};
use k256::{FieldBytes, U256};
use vstd::prelude::*;
use vstd::slice::slice_to_vec;

verus! {

/// The order `q` of the secp256k1 group, a prime. Scalars are the numbers below it.
pub open spec fn group_order() -> nat {
    0xFFFFFFFF_FFFFFFFF_FFFFFFFF_FFFFFFFE_BAAEDCE6_AF48A03B_BFD25E8C_D0364141nat
}

/// Whether `bytes` is the encoding of a scalar: 32 bytes that denote, big-endian,
/// a number below the group order.
pub open spec fn is_scalar_encoding(bytes: Seq<u8>) -> bool {
    bytes.len() == 32 && be_nat(bytes) < group_order()
}

/// A scalar, held by its 32-byte big-endian encoding. Its view is the number.
#[derive(Debug)]
pub struct Scalar {
    bytes: Vec<u8>,
}

impl View for Scalar {
    type V = nat;

    open spec fn view(&self) -> nat {
        be_nat(self.encoding())
    }
}

impl Clone for Scalar {
    fn clone(&self) -> (out: Self)
        ensures
            out.encoding() == self.encoding(),
            out@ == self@,
            out.wf(),
    {
        proof {
            use_type_invariant(self);
        }
        Scalar { bytes: self.to_bytes() }
    }
}

/// `k256::Scalar::from_repr` (of `PrimeField`), asked only whether it accepts:
/// it reads the 32 bytes as a big-endian integer and accepts exactly the
/// integers below the group order.
#[verifier::external_body]
fn k256_scalar_in_range(bytes: &Vec<u8>) -> (ok: bool)
    requires
        bytes@.len() == 32,
    ensures
        ok == (be_nat(bytes@) < group_order()),
{
    let repr: [u8; 32] = bytes.as_slice().try_into().unwrap();
    let parsed: Option<k256::Scalar> = k256::Scalar::from_repr(repr.into()).into();
    parsed.is_some()
}

/// `k256::Scalar::reduce_bytes` (of `Reduce<U256>`): reads 32 bytes as a
/// big-endian integer and reduces it modulo the group order.
#[verifier::external_body]
fn k256_scalar_reduce(bytes: &Vec<u8>) -> (out: Vec<u8>)
    requires
        bytes@.len() == 32,
    ensures
        out@.len() == 32,
        be_nat(out@) == be_nat(bytes@) % group_order(),
{
    let repr: [u8; 32] = bytes.as_slice().try_into().unwrap();
    <k256::Scalar as Reduce<U256>>::reduce_bytes(&FieldBytes::from(repr)).to_bytes().to_vec()
}

/// `+` on `k256::Scalar`: addition modulo the group order.
#[verifier::external_body]
fn k256_scalar_add(a: &Vec<u8>, b: &Vec<u8>) -> (out: Vec<u8>)
    requires
        is_scalar_encoding(a@),
        is_scalar_encoding(b@),
    ensures
        out@.len() == 32,
        be_nat(out@) == (be_nat(a@) + be_nat(b@)) % group_order(),
{
    let a: [u8; 32] = a.as_slice().try_into().unwrap();
    let b: [u8; 32] = b.as_slice().try_into().unwrap();
    let a = k256::Scalar::from_repr(a.into()).unwrap();
    let b = k256::Scalar::from_repr(b.into()).unwrap();
    (a + b).to_bytes().to_vec()
}

/// `*` on `k256::Scalar`: multiplication modulo the group order.
#[verifier::external_body]
fn k256_scalar_mul(a: &Vec<u8>, b: &Vec<u8>) -> (out: Vec<u8>)
    requires
        is_scalar_encoding(a@),
        is_scalar_encoding(b@),
    ensures
        out@.len() == 32,
        be_nat(out@) == (be_nat(a@) * be_nat(b@)) % group_order(),
{
    let a: [u8; 32] = a.as_slice().try_into().unwrap();
    let b: [u8; 32] = b.as_slice().try_into().unwrap();
    let a = k256::Scalar::from_repr(a.into()).unwrap();
    let b = k256::Scalar::from_repr(b.into()).unwrap();
    (a * b).to_bytes().to_vec()
}

/// `k256::Scalar::random` (of `Field`) on the operating system's generator,
/// `OsRng`: a scalar drawn uniformly by rejection sampling. Which scalar comes
/// is not said, only that it is one. The call aborts the process if the
/// operating system cannot supply randomness.
#[verifier::external_body]
fn k256_scalar_random() -> (out: Vec<u8>)
    ensures
        is_scalar_encoding(out@),
{
    k256::Scalar::random(&mut OsRng).to_bytes().to_vec()
}

impl Scalar {
    /// The 32 bytes that hold the scalar.
    pub closed spec fn encoding(&self) -> Seq<u8> {
        self.bytes@
    }

    /// What holds of every scalar: its encoding is 32 bytes long and denotes a
    /// number below the group order.
    #[verifier::type_invariant]
    pub open spec fn wf(&self) -> bool {
        is_scalar_encoding(self.encoding())
    }

    /// Decodes a scalar from its fixed-width big-endian encoding.
    pub fn from_bytes(bytes: &[u8]) -> (out: Result<Scalar, DecodeError>)
        ensures
            out is Ok <==> is_scalar_encoding(bytes@),
            out matches Ok(s) ==> s.encoding() == bytes@ && s.wf(),
            out == Err::<Scalar, DecodeError>(DecodeError::ScalarLength) <==> bytes@.len() != 32,
            out == Err::<Scalar, DecodeError>(DecodeError::ScalarOutOfRange) <==> bytes@.len() == 32
                && be_nat(bytes@) >= group_order(),
    {
        if bytes.len() != 32 {
            return Err(DecodeError::ScalarLength);
        }
        let owned = slice_to_vec(bytes);
        if k256_scalar_in_range(&owned) {
            Ok(Scalar { bytes: owned })
        } else {
            Err(DecodeError::ScalarOutOfRange)
        }
    }

    /// The fixed-width big-endian encoding of the scalar, borrowed.
    pub fn as_bytes(&self) -> (out: &Vec<u8>)
        ensures
            out@ == self.encoding(),
            is_scalar_encoding(out@),
    {
        proof {
            use_type_invariant(self);
        }
        &self.bytes
    }

    /// The fixed-width big-endian encoding of the scalar.
    pub fn to_bytes(&self) -> (out: Vec<u8>)
        ensures
            out@ == self.encoding(),
            is_scalar_encoding(out@),
    {
        proof {
            use_type_invariant(self);
        }
        let mut out: Vec<u8> = Vec::new();
        let mut i: usize = 0;
        while i < self.bytes.len()
            invariant
                i <= self.bytes.len(),
                out@ == self.bytes@.subrange(0, i as int),
            decreases self.bytes.len() - i,
        {
            out.push(self.bytes[i]);
            assert(out@ =~= self.bytes@.subrange(0, i + 1));
            i += 1;
        }
        assert(out@ =~= self.bytes@);
        out
    }

    /// The scalar that a small number denotes.
    pub fn from_u64(v: u64) -> (out: Scalar)
        ensures
            out@ == v,
            out.wf(),
    {
        Scalar { bytes: be32_from_u64(v) }
    }

    /// 32 bytes, such as the digest of a hash, read as a big-endian integer and
    /// reduced modulo the group order. Unlike `from_bytes` this accepts every
    /// 32-byte string.
    pub fn from_digest(digest: &[u8]) -> (out: Result<Scalar, DecodeError>)
        ensures
            out is Ok <==> digest@.len() == 32,
            out matches Ok(s) ==> s@ == be_nat(digest@) % group_order() && s.wf(),
            out matches Err(e) ==> e == DecodeError::ScalarLength,
    {
        if digest.len() != 32 {
            return Err(DecodeError::ScalarLength);
        }
        Ok(Scalar::reduce(&slice_to_vec(digest)))
    }

    /// The scalar that 32 bytes denote modulo the group order.
    pub(crate) fn reduce(digest: &Vec<u8>) -> (out: Scalar)
        requires
            digest@.len() == 32,
        ensures
            out@ == be_nat(digest@) % group_order(),
            out.wf(),
    {
        Scalar { bytes: k256_scalar_reduce(digest) }
    }

    /// A scalar drawn afresh from the operating system's secure generator.
    pub fn random() -> (out: Scalar)
        ensures
            out.wf(),
    {
        Scalar { bytes: k256_scalar_random() }
    }

    /// The sum modulo the group order.
    pub fn add_mod(&self, other: &Scalar) -> (out: Scalar)
        ensures
            out@ == (self@ + other@) % group_order(),
            out.wf(),
    {
        proof {
            use_type_invariant(self);
            use_type_invariant(other);
        }
        Scalar { bytes: k256_scalar_add(&self.bytes, &other.bytes) }
    }

    /// The product modulo the group order.
    pub fn mul_mod(&self, other: &Scalar) -> (out: Scalar)
        ensures
            out@ == (self@ * other@) % group_order(),
            out.wf(),
    {
        proof {
            use_type_invariant(self);
            use_type_invariant(other);
        }
        Scalar { bytes: k256_scalar_mul(&self.bytes, &other.bytes) }
    }

    /// Whether two scalars are the same number.
    pub fn eq(&self, other: &Scalar) -> (same: bool)
        ensures
            same == (self@ == other@),
    {
        proof {
            use_type_invariant(self);
            use_type_invariant(other);
            if self@ == other@ {
                lemma_be_nat_injective(self.bytes@, other.bytes@);
            }
        }
        bytes_equal(&self.bytes, &other.bytes)
    }
}

/// A scalar is the number it denotes and nothing more: two scalars with the same
/// value have the same encoding.
pub proof fn lemma_scalar_encoding_unique(a: Scalar, b: Scalar)
    requires
        a.wf(),
        b.wf(),
        a@ == b@,
    ensures
        a.encoding() == b.encoding(),
{
    lemma_be_nat_injective(a.encoding(), b.encoding());
}

} // verus!
