use dlog_proof::error::DecodeError;
use dlog_proof::point::Point;
use dlog_proof::scalar::Scalar;

fn point_hex(text: &str) -> Vec<u8> {
    let digits: Vec<u8> = text.bytes().map(|c| (c as char).to_digit(16).unwrap() as u8).collect();
    digits.chunks(2).map(|pair| pair[0] * 16 + pair[1]).collect()
}

const G: &str = "0479be667ef9dcbbac55a06295ce870b07029bfcdb2dce28d959f2815b16f81798483ada7726a3c4655da4fbfc0e1108a8fd17b448a68554199c47d08ffb10d4b8";
const G_COMPRESSED: &str = "0279be667ef9dcbbac55a06295ce870b07029bfcdb2dce28d959f2815b16f81798";
const TWO_G: &str = "04c6047f9441ed7d6d3045406e95c07cd85c778e4b8cef3ca7abac09b95c709ee51ae168fea63dc339a3c58419466ceaeef7f632653266d0e1236431a950cfe52a";
const TWO_G_COMPRESSED: &str = "02c6047f9441ed7d6d3045406e95c07cd85c778e4b8cef3ca7abac09b95c709ee5";
const THREE_G: &str = "04f9308a019258c31049344f85f89d5229b531c845836f99b08601f113bce036f9388f7b0f632de8140fe337e62a37f3566500a99934c2231b6cb9fd7584b8e672";
const OFF_CURVE: &str = "0479be667ef9dcbbac55a06295ce870b07029bfcdb2dce28d959f2815b16f81798483ada7726a3c4655da4fbfc0e1108a8fd17b448a68554199c47d08ffb10d4b9";
const X: &str = "1234567890abcdef1234567890abcdef1234567890abcdef1234567890abcdef";
const X_TIMES_G: &str = "04bb50e2d89a4ed70663d080659fe0ad4b9bc3e06c17a227433966cb59ceee020decddbf6e00192011648d13b1c00af770c0c1bb609d4d3a5c98a43772e0e18ef4";
const ORDER_LESS_ONE: &str = "fffffffffffffffffffffffffffffffebaaedce6af48a03bbfd25e8cd0364140";

#[test]
fn generator_has_the_standard_encoding() {
    let g = Point::generator();
    assert_eq!(g.to_bytes(), point_hex(G));
    assert_eq!(g.as_bytes(), &point_hex(G));
    assert_eq!(g.to_bytes().len(), 65);
    assert!(!g.is_identity());
}

#[test]
fn from_bytes_reads_the_uncompressed_form() {
    let g = Point::from_bytes(&point_hex(G)).unwrap();
    assert_eq!(g, Point::generator());
    let two = Point::from_bytes(&point_hex(TWO_G)).unwrap();
    assert_eq!(two.to_bytes(), point_hex(TWO_G));
}

#[test]
fn from_bytes_makes_the_compressed_form_canonical() {
    let g = Point::from_bytes(&point_hex(G_COMPRESSED)).unwrap();
    assert_eq!(g.to_bytes(), point_hex(G));
    let two = Point::from_bytes(&point_hex(TWO_G_COMPRESSED)).unwrap();
    assert_eq!(two.to_bytes(), point_hex(TWO_G));
}

#[test]
fn from_bytes_reads_the_identity() {
    let o = Point::from_bytes(&[0u8]).unwrap();
    assert!(o.is_identity());
    assert_eq!(o.to_bytes(), vec![0u8]);
}

#[test]
fn from_bytes_refuses_what_is_not_on_the_curve() {
    assert_eq!(Point::from_bytes(&point_hex(OFF_CURVE)).err(), Some(DecodeError::InvalidPoint));
    let mut zero = vec![0u8; 65];
    zero[0] = 4;
    assert_eq!(Point::from_bytes(&zero).err(), Some(DecodeError::InvalidPoint));
}

#[test]
fn from_bytes_refuses_malformed_input() {
    assert_eq!(Point::from_bytes(&[]).err(), Some(DecodeError::InvalidPoint));
    assert_eq!(Point::from_bytes(&[4u8]).err(), Some(DecodeError::InvalidPoint));
    assert_eq!(Point::from_bytes(&[0u8, 0u8]).err(), Some(DecodeError::InvalidPoint));
    let g = point_hex(G);
    assert_eq!(Point::from_bytes(&g[..64]).err(), Some(DecodeError::InvalidPoint));
    let mut long = g.clone();
    long.push(0);
    assert_eq!(Point::from_bytes(&long).err(), Some(DecodeError::InvalidPoint));
    let mut tag = g.clone();
    tag[0] = 7;
    assert_eq!(Point::from_bytes(&tag).err(), Some(DecodeError::InvalidPoint));
    assert_eq!(Point::from_bytes(&g[1..]).err(), Some(DecodeError::InvalidPoint));
}

#[test]
fn scalar_mul_gives_the_known_multiples() {
    let g = Point::generator();
    assert_eq!(g.scalar_mul(&Scalar::from_u64(1)), g);
    assert_eq!(g.scalar_mul(&Scalar::from_u64(2)).to_bytes(), point_hex(TWO_G));
    assert_eq!(g.scalar_mul(&Scalar::from_u64(3)).to_bytes(), point_hex(THREE_G));
    let x = Scalar::from_bytes(&point_hex(X)).unwrap();
    assert_eq!(g.scalar_mul(&x).to_bytes(), point_hex(X_TIMES_G));
    assert!(g.scalar_mul(&Scalar::from_u64(0)).is_identity());
}

#[test]
fn scalar_mul_of_a_multiple_multiplies_the_scalars() {
    let g = Point::generator();
    let two = g.scalar_mul(&Scalar::from_u64(2));
    let x = Scalar::from_bytes(&point_hex(X)).unwrap();
    let doubled = x.mul_mod(&Scalar::from_u64(2));
    assert_eq!(two.scalar_mul(&x), g.scalar_mul(&doubled));
    assert_eq!(g.scalar_mul(&x).scalar_mul(&Scalar::from_u64(2)), g.scalar_mul(&doubled));
}

#[test]
fn point_add_gives_the_known_sums() {
    let g = Point::generator();
    let two = g.point_add(&g);
    assert_eq!(two.to_bytes(), point_hex(TWO_G));
    assert_eq!(two.point_add(&g).to_bytes(), point_hex(THREE_G));
    assert_eq!(g.point_add(&two).to_bytes(), point_hex(THREE_G));
    let o = Point::from_bytes(&[0u8]).unwrap();
    assert_eq!(g.point_add(&o), g);
    assert_eq!(o.point_add(&o), o);
}

#[test]
fn point_add_of_multiples_adds_the_scalars() {
    let g = Point::generator();
    let x = Scalar::from_bytes(&point_hex(X)).unwrap();
    let top = Scalar::from_bytes(&point_hex(ORDER_LESS_ONE)).unwrap();
    let sum = x.add_mod(&top);
    assert_eq!(g.scalar_mul(&x).point_add(&g.scalar_mul(&top)), g.scalar_mul(&sum));
    assert!(g.point_add(&g.scalar_mul(&top)).is_identity());
}

#[test]
fn different_scalars_give_different_multiples() {
    let g = Point::generator();
    let a = g.scalar_mul(&Scalar::from_u64(11));
    let b = g.scalar_mul(&Scalar::from_u64(12));
    assert_ne!(a, b);
    assert!(!a.eq(&b));
    assert!(a.eq(&a.duplicate()));
    assert_eq!(a.clone(), a);
}
