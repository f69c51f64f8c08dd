use dlog_proof::error::DecodeError;
use dlog_proof::point::Point;
use dlog_proof::record::ProofRecord;
use dlog_proof::scalar::Scalar;
use dlog_proof::schnorr::DLogProof;

fn record_hex(text: &str) -> Vec<u8> {
    let digits: Vec<u8> = text.bytes().map(|c| (c as char).to_digit(16).unwrap() as u8).collect();
    digits.chunks(2).map(|pair| pair[0] * 16 + pair[1]).collect()
}

fn known_secret() -> Scalar {
    Scalar::from_bytes(&record_hex(
        "1234567890abcdef1234567890abcdef1234567890abcdef1234567890abcdef",
    ))
    .unwrap()
}

fn known_proof() -> DLogProof {
    let x = known_secret();
    let y = Point::generator().scalar_mul(&x);
    let r = Scalar::from_bytes(&record_hex(
        "0fedcba987654321fedcba9876543210fedcba9876543210fedcba9876543210",
    ))
    .unwrap();
    DLogProof::prove_with_nonce("sid", Scalar::from_u64(1), x, y, None, r)
}

const T: &str = "048113019270d444b2b4902782b351e28dddf71ae6a62eec820fd076d8b0cd89eb1694cc120beb843afd4acc4c7c2c6829258ece640a5dcf1f5c755d17eb50dcb9";
const S: &str = "5ff67946271396f2dc57c13feb776ea69dcac426f9aaae33bf620d6d15c3f03d";
const ORDER: &str = "fffffffffffffffffffffffffffffffebaaedce6af48a03bbfd25e8cd0364141";

#[test]
fn to_record_gives_the_two_encodings() {
    let record = known_proof().to_record();
    assert_eq!(record.t, record_hex(T));
    assert_eq!(record.s, record_hex(S));
    assert_eq!(record.t.len(), 65);
    assert_eq!(record.s.len(), 32);
}

#[test]
fn from_record_reads_the_two_encodings() {
    let read = DLogProof::from_record(&ProofRecord { t: record_hex(T), s: record_hex(S) }).unwrap();
    assert_eq!(read.t.to_bytes(), record_hex(T));
    assert_eq!(read.s.to_bytes(), record_hex(S));
    assert_eq!(read, known_proof());
}

#[test]
fn record_round_trip_gives_the_same_proof() {
    let g = Point::generator();
    let pid = Scalar::from_u64(1);
    for _ in 0..4 {
        let x = Scalar::random();
        let y = g.scalar_mul(&x);
        let made = DLogProof::prove("sid", pid.clone(), x, y.clone(), None);
        let read = DLogProof::from_record(&made.to_record()).unwrap();
        assert_eq!(read, made);
        assert!(read.eq(&made));
        assert_eq!(
            read.verify("sid", pid.clone(), y.clone(), None),
            made.verify("sid", pid.clone(), y.clone(), None)
        );
        assert!(read.verify("sid", pid.clone(), y.clone(), None));
        assert_eq!(
            read.verify("other", pid.clone(), y.clone(), None),
            made.verify("other", pid.clone(), y, None)
        );
    }
}

#[test]
fn from_record_refuses_a_bad_commitment() {
    let mut t = record_hex(T);
    t[64] ^= 1;
    let off_curve = ProofRecord { t, s: record_hex(S) };
    assert_eq!(DLogProof::from_record(&off_curve).err(), Some(DecodeError::InvalidPoint));
    let short = ProofRecord { t: record_hex(T)[..64].to_vec(), s: record_hex(S) };
    assert_eq!(DLogProof::from_record(&short).err(), Some(DecodeError::InvalidPoint));
    let empty = ProofRecord { t: vec![], s: record_hex(S) };
    assert_eq!(DLogProof::from_record(&empty).err(), Some(DecodeError::InvalidPoint));
}

#[test]
fn from_record_refuses_a_bad_response() {
    let short = ProofRecord { t: record_hex(T), s: record_hex(S)[..31].to_vec() };
    assert_eq!(DLogProof::from_record(&short).err(), Some(DecodeError::ScalarLength));
    let mut padded = vec![0u8];
    padded.extend_from_slice(&record_hex(S));
    let long = ProofRecord { t: record_hex(T), s: padded };
    assert_eq!(DLogProof::from_record(&long).err(), Some(DecodeError::ScalarLength));
    let large = ProofRecord { t: record_hex(T), s: record_hex(ORDER) };
    assert_eq!(DLogProof::from_record(&large).err(), Some(DecodeError::ScalarOutOfRange));
}

#[test]
fn from_record_looks_at_the_commitment_first() {
    let both = ProofRecord { t: vec![4u8; 65], s: vec![0xffu8; 3] };
    assert_eq!(DLogProof::from_record(&both).err(), Some(DecodeError::InvalidPoint));
}

#[test]
fn tampering_with_any_byte_of_the_response_is_caught() {
    let made = known_proof();
    let y = Point::generator().scalar_mul(&known_secret());
    let pid = Scalar::from_u64(1);
    assert!(made.verify("sid", pid.clone(), y.clone(), None));
    let record = made.to_record();
    for i in 0..32 {
        for flip in [0x01u8, 0x80u8, 0xffu8] {
            let mut s = record.s.clone();
            s[i] ^= flip;
            match DLogProof::from_record(&ProofRecord { t: record.t.clone(), s }) {
                Ok(read) => assert!(!read.verify("sid", pid.clone(), y.clone(), None)),
                Err(e) => assert_eq!(e, DecodeError::ScalarOutOfRange),
            }
        }
    }
}

#[test]
fn tampering_with_the_commitment_is_caught() {
    let made = known_proof();
    let y = Point::generator().scalar_mul(&known_secret());
    let pid = Scalar::from_u64(1);
    let record = made.to_record();
    let other = Point::generator().scalar_mul(&Scalar::from_u64(9)).to_bytes();
    let read = DLogProof::from_record(&ProofRecord { t: other, s: record.s.clone() }).unwrap();
    assert!(!read.verify("sid", pid, y, None));
}
