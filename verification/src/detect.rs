//! Recovery of the power of an accumulator from its length.

use crate::error::ReduceError;
use crate::layout::{
    expected_accumulator_bytes, lemma_expected_bytes_strictly_increasing,
    spec_expected_accumulator_bytes, HEADER_BYTES, MAX_POWER, MIN_POWER,
};
use vstd::prelude::*;

verus! {

/// `p` is a power that detection recognises, and an accumulator of that
/// power is `size` bytes long.
pub open spec fn size_matches(size: nat, p: nat) -> bool {
    MIN_POWER <= p <= MAX_POWER && spec_expected_accumulator_bytes(p) == size
}

/// The power whose accumulator is `size` bytes long, if there is one in the
/// detected range.
pub open spec fn spec_detect_power(size: nat) -> Option<nat> {
    if exists|p: nat| size_matches(size, p) {
        Some(choose|p: nat| size_matches(size, p))
    } else {
        None
    }
}

/// At most one power matches a size.
pub proof fn lemma_size_matches_unique(size: nat, p: nat, q: nat)
    requires
        size_matches(size, p),
        size_matches(size, q),
    ensures
        p == q,
{
    if p < q {
        lemma_expected_bytes_strictly_increasing(p, q);
    } else if q < p {
        lemma_expected_bytes_strictly_increasing(q, p);
    }
}

/// A power that matches a size is the one that detection names.
pub proof fn lemma_detect_is_match(size: nat, p: nat)
    requires
        size_matches(size, p),
    ensures
        spec_detect_power(size) == Some(p),
{
    let chosen = choose|q: nat| size_matches(size, q);
    lemma_size_matches_unique(size, p, chosen);
}

/// Detection inverts the length of an accumulator: from the length of an
/// accumulator of a power in the detected range it recovers that power.
pub proof fn lemma_detect_round_trip(p: nat)
    requires
        MIN_POWER <= p <= MAX_POWER,
    ensures
        spec_detect_power(spec_expected_accumulator_bytes(p)) == Some(p),
{
    lemma_detect_is_match(spec_expected_accumulator_bytes(p), p);
}

/// Finds the power of an accumulator of `accumulator_size` bytes by trying
/// each power of the detected range in ascending order.
pub fn detect_power_from_size(accumulator_size: u64) -> (r: Result<usize, ReduceError>)
    ensures
        match r {
            Ok(power) => size_matches(accumulator_size as nat, power as nat),
            Err(e) => e == ReduceError::UnsupportedSize && forall|p: nat|
                !size_matches(accumulator_size as nat, p),
        },
        match spec_detect_power(accumulator_size as nat) {
            Some(p) => r == Ok::<usize, ReduceError>(p as usize),
            None => r == Err::<usize, ReduceError>(ReduceError::UnsupportedSize),
        },
{
    let mut power: usize = MIN_POWER;
    while power <= MAX_POWER
        invariant
            MIN_POWER <= power <= MAX_POWER + 1,
            forall|p: nat| MIN_POWER <= p < power ==> !size_matches(accumulator_size as nat, p),
        decreases MAX_POWER + 1 - power,
    {
        let expected_size: u64 = expected_accumulator_bytes(power);
        if expected_size == accumulator_size {
            proof {
                lemma_detect_is_match(accumulator_size as nat, power as nat);
            }
            return Ok(power);
        }
        power = power + 1;
    }
    Err(ReduceError::UnsupportedSize)
}

/// The power of a file of `length` bytes: that of an accumulator which,
/// after a header, fills the file exactly.
pub open spec fn spec_file_power(length: nat) -> Option<nat> {
    if length < HEADER_BYTES {
        None
    } else {
        spec_detect_power((length - HEADER_BYTES) as nat)
    }
}

/// Finds the power of a ceremony file from its size: the header is taken
/// off, and the rest must be an accumulator of a supported power. A file
/// shorter than a header has no power.
pub fn detect_power_from_file_size(file_size: u64) -> (r: Result<usize, ReduceError>)
    ensures
        match spec_file_power(file_size as nat) {
            Some(p) => r == Ok::<usize, ReduceError>(p as usize) && MIN_POWER <= p <= MAX_POWER,
            None => r == Err::<usize, ReduceError>(ReduceError::UnsupportedSize),
        },
{
    if file_size < HEADER_BYTES as u64 {
        return Err(ReduceError::UnsupportedSize);
    }
    detect_power_from_size(file_size - HEADER_BYTES as u64)
}

} // verus!
