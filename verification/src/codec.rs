//! Decoding of uncompressed points by the curve library.

use crate::layout::{G1_UNCOMPRESSED_BYTE_SIZE, G2_UNCOMPRESSED_BYTE_SIZE};
use bellman_ce::pairing::bls12_381::{G1Uncompressed, G2Uncompressed};
use bellman_ce::pairing::{CurveAffine, EncodedPoint};
use vstd::prelude::*;

verus! {

/// What the curve library makes of 96 bytes read as an uncompressed point
/// of the first group: `None` where they decode to no point of the group,
/// `Some(true)` where they decode to its identity, `Some(false)` where they
/// decode to any other point.
pub uninterp spec fn g1_decoding(bytes: Seq<u8>) -> Option<bool>;

/// What the curve library makes of 192 bytes read as an uncompressed point
/// of the second group: `None` where they decode to no point of the group,
/// `Some(true)` where they decode to its identity, `Some(false)` where they
/// decode to any other point.
pub uninterp spec fn g2_decoding(bytes: Seq<u8>) -> Option<bool>;

/// Decodes 96 bytes with `G1Uncompressed::into_affine` of `pairing`, which
/// checks the flags of the encoding, that the coordinates are in the field,
/// that the point is on the curve and that it is in the subgroup, and asks
/// the point that comes out whether it `is_zero`. Trusted: the result is a
/// function of the bytes alone, named `g1_decoding`.
#[verifier::external_body]
pub(crate) fn decode_g1(bytes: &[u8]) -> (decoded: Option<bool>)
    requires
        bytes@.len() == G1_UNCOMPRESSED_BYTE_SIZE,
    ensures
        decoded == g1_decoding(bytes@),
{
    let mut encoded = G1Uncompressed::empty();
    encoded.as_mut().copy_from_slice(bytes);
    match encoded.into_affine() {
        Ok(point) => Some(point.is_zero()),
        Err(_) => None,
    }
}

/// Decodes 192 bytes with `G2Uncompressed::into_affine` of `pairing`, which
/// checks the flags of the encoding, that the coordinates are in the field,
/// that the point is on the curve and that it is in the subgroup, and asks
/// the point that comes out whether it `is_zero`. Trusted: the result is a
/// function of the bytes alone, named `g2_decoding`.
#[verifier::external_body]
pub(crate) fn decode_g2(bytes: &[u8]) -> (decoded: Option<bool>)
    requires
        bytes@.len() == G2_UNCOMPRESSED_BYTE_SIZE,
    ensures
        decoded == g2_decoding(bytes@),
{
    let mut encoded = G2Uncompressed::empty();
    encoded.as_mut().copy_from_slice(bytes);
    match encoded.into_affine() {
        Ok(point) => Some(point.is_zero()),
        Err(_) => None,
    }
}

} // verus!
