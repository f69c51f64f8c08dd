//! Big-endian byte strings and the numbers they denote.

use vstd::prelude::*;

verus! {

/// The number that `bytes` denotes when read as a big-endian integer.
pub open spec fn be_nat(bytes: Seq<u8>) -> nat
    decreases bytes.len(),
{
    if bytes.len() == 0 {
        0
    } else {
        be_nat(bytes.drop_last()) * 256 + bytes.last() as nat
    }
}

/// Appending a byte shifts the number by one byte and adds the new one.
pub proof fn lemma_be_nat_push(bytes: Seq<u8>, b: u8)
    ensures
        be_nat(bytes.push(b)) == be_nat(bytes) * 256 + b as nat,
{
    assert(bytes.push(b).drop_last() =~= bytes);
}

/// Two byte strings of one length that denote the same number are the same
/// string: the big-endian encoding of a fixed width is unique.
pub proof fn lemma_be_nat_injective(a: Seq<u8>, b: Seq<u8>)
    requires
        a.len() == b.len(),
        be_nat(a) == be_nat(b),
    ensures
        a == b,
    decreases a.len(),
{
    if a.len() > 0 {
        let hi_a = be_nat(a.drop_last());
        let hi_b = be_nat(b.drop_last());
        assert(hi_a * 256 + a.last() as nat == hi_b * 256 + b.last() as nat);
        assert(hi_a == hi_b && a.last() == b.last()) by (nonlinear_arith)
            requires
                hi_a * 256 + a.last() as nat == hi_b * 256 + b.last() as nat,
                a.last() < 256,
                b.last() < 256,
        ;
        lemma_be_nat_injective(a.drop_last(), b.drop_last());
        assert(a =~= a.drop_last().push(a.last()));
        assert(b =~= b.drop_last().push(b.last()));
    } else {
        assert(a =~= b);
    }
}

/// Whether two byte strings are equal.
pub fn bytes_equal(a: &Vec<u8>, b: &Vec<u8>) -> (same: bool)
    ensures
        same == (a@ == b@),
{
    if a.len() != b.len() {
        return false;
    }
    let mut i: usize = 0;
    while i < a.len()
        invariant
            a.len() == b.len(),
            i <= a.len(),
            forall|j: int| 0 <= j < i ==> a@[j] == b@[j],
        decreases a.len() - i,
    {
        if a[i] != b[i] {
            return false;
        }
        i += 1;
    }
    assert(a@ =~= b@);
    true
}

/// Appends the bytes of `src` to `dst`.
pub fn append_bytes(dst: &mut Vec<u8>, src: &Vec<u8>)
    ensures
        final(dst)@ == old(dst)@ + src@,
{
    let mut i: usize = 0;
    while i < src.len()
        invariant
            i <= src.len(),
            dst@ == old(dst)@ + src@.subrange(0, i as int),
        decreases src.len() - i,
    {
        dst.push(src[i]);
        assert(dst@ =~= old(dst)@ + src@.subrange(0, i + 1));
        i += 1;
    }
    assert(src@.subrange(0, src.len() as int) =~= src@);
}

/// The 32-byte big-endian encoding of a 64-bit number.
pub fn be32_from_u64(v: u64) -> (out: Vec<u8>)
    ensures
        out@.len() == 32,
        be_nat(out@) == v,
{
    let mut out: Vec<u8> = Vec::new();
    let mut i: usize = 0;
    while i < 24
        invariant
            i <= 24,
            out@.len() == i,
            be_nat(out@) == 0,
        decreases 24 - i,
    {
        proof {
            lemma_be_nat_push(out@, 0u8);
        }
        out.push(0u8);
        i += 1;
    }
    let mut hi: u64 = 0;
    let mut shift: u32 = 64;
    while shift > 0
        invariant
            shift <= 64,
            shift % 8 == 0,
            out@.len() == 32 - shift / 8,
            be_nat(out@) == hi,
            shift == 64 ==> hi == 0,
            shift < 64 ==> hi == v >> shift,
        decreases shift,
    {
        shift -= 8;
        let part: u64 = v >> shift;
        let b: u8 = (part & 0xff) as u8;
        proof {
            // `part` is `hi` with one more byte behind it.
            lemma_be_nat_push(out@, b);
            let s: u32 = shift;
            assert(part % 256 == part & 0xff) by (bit_vector);
            if s == 56 {
                assert((v >> 56u32) / 256 == 0) by (bit_vector);
            } else {
                assert(s <= 48 ==> (v >> s) / 256 == v >> ((s + 8) as u32)) by (bit_vector);
            }
            assert(part == (part / 256) * 256 + part % 256);
        }
        out.push(b);
        hi = part;
    }
    assert(v >> 0u32 == v) by (bit_vector);
    out
}

} // verus!
