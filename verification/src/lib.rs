//! Non-interactive Schnorr proofs of knowledge of a discrete logarithm over
//! secp256k1, made non-interactive with the Fiat-Shamir transform.
//!
//! Group elements and scalars are held by their canonical encodings, and the
//! contracts speak of those encodings and of the numbers they denote. The curve
//! arithmetic and SHA-256 are done by `k256`; the functions that call it are the
//! only ones whose contracts are taken on trust.
//!
//! - `encoding`: big-endian byte strings and the numbers they denote
//! - `error`: why a byte string is refused
//! - `scalar`: the integers modulo the group order
//! - `point`: the group elements, and the laws of the group
//! - `challenge`: the challenge that binds a proof to its context
//! - `schnorr`: `prove` and `verify`, and what holds of them
//! - `record`: a proof as two byte strings, for transport
//! - `equality`: `==` on scalars, points and proofs

pub mod encoding;
pub mod error;
pub mod scalar;
pub mod point;
pub mod challenge;
pub mod schnorr;
pub mod record;
pub mod equality;
