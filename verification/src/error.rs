//! Why a byte string was not accepted as a scalar or as a group element.

use vstd::prelude::*;

verus! {

/// The ways in which decoding fails. Nothing is ever decoded to a default value:
/// a byte string either denotes exactly one scalar or group element, or it is
/// refused with one of these.
#[derive(Clone, Copy, Debug, PartialEq, Eq, Structural)]
pub enum DecodeError {
    /// A scalar encoding must be exactly 32 bytes long.
    ScalarLength,
    /// The 32 bytes denote a number that is not below the group order.
    ScalarOutOfRange,
    /// The bytes are not the SEC1 encoding of a point of the curve.
    InvalidPoint,
}

} // verus!
