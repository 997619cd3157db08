//! The check that every point of an accumulator decodes to a point of its
//! group other than the identity.

use crate::codec::{decode_g1, decode_g2, g1_decoding, g2_decoding};
use crate::cursor::{
    lemma_next_position_offset, lemma_points_in_file_order, lemma_precedes_next, next_position,
    point_bytes, point_offset, precedes, valid_position, Cursor,
};
use crate::error::{PointFault, ReduceError};
use crate::layout::{
    spec_expected_accumulator_bytes, PointKind, Section, G1_UNCOMPRESSED_BYTE_SIZE,
    G2_UNCOMPRESSED_BYTE_SIZE, HEADER_BYTES, MAX_POWER,
};
use vstd::prelude::*;
use vstd::slice::slice_subrange;

verus! {

/// The verdict on what the curve library made of a point: accepted where it
/// decoded to a point other than the identity.
pub open spec fn spec_classify(decoded: Option<bool>) -> Result<(), PointFault> {
    match decoded {
        None => Err(PointFault::Malformed),
        Some(true) => Err(PointFault::Identity),
        Some(false) => Ok(()),
    }
}

/// The verdict on what the curve library made of a point. `decoded` is
/// `None` where the bytes did not decode, else whether the point is the
/// identity.
pub fn classify(decoded: Option<bool>) -> (r: Result<(), PointFault>)
    ensures
        r == spec_classify(decoded),
{
    match decoded {
        None => Err(PointFault::Malformed),
        Some(true) => Err(PointFault::Identity),
        Some(false) => Ok(()),
    }
}

/// The verdict on the encoding of a point of the first group. Bytes of
/// another length than the encoding has are no encoding.
pub open spec fn spec_verify_g1_point(bytes: Seq<u8>) -> Result<(), PointFault> {
    if bytes.len() != G1_UNCOMPRESSED_BYTE_SIZE {
        Err(PointFault::Malformed)
    } else {
        spec_classify(g1_decoding(bytes))
    }
}

/// The verdict on the encoding of a point of the second group. Bytes of
/// another length than the encoding has are no encoding.
pub open spec fn spec_verify_g2_point(bytes: Seq<u8>) -> Result<(), PointFault> {
    if bytes.len() != G2_UNCOMPRESSED_BYTE_SIZE {
        Err(PointFault::Malformed)
    } else {
        spec_classify(g2_decoding(bytes))
    }
}

/// The verdict on the encoding of a point of a kind.
pub open spec fn spec_verify_encoded(kind: PointKind, bytes: Seq<u8>) -> Result<(), PointFault> {
    match kind {
        PointKind::G1 => spec_verify_g1_point(bytes),
        PointKind::G2 => spec_verify_g2_point(bytes),
    }
}

/// Decodes the bytes of a point of the first group and accepts it where it
/// is a point of the group other than the identity.
pub fn verify_g1_point(bytes: &[u8]) -> (r: Result<(), PointFault>)
    ensures
        r == spec_verify_g1_point(bytes@),
{
    if bytes.len() != G1_UNCOMPRESSED_BYTE_SIZE {
        return Err(PointFault::Malformed);
    }
    classify(decode_g1(bytes))
}

/// Decodes the bytes of a point of the second group and accepts it where
/// it is a point of the group other than the identity.
pub fn verify_g2_point(bytes: &[u8]) -> (r: Result<(), PointFault>)
    ensures
        r == spec_verify_g2_point(bytes@),
{
    if bytes.len() != G2_UNCOMPRESSED_BYTE_SIZE {
        return Err(PointFault::Malformed);
    }
    classify(decode_g2(bytes))
}

/// The verdict on the bytes read for point `index` of `section`: a
/// rejection names the section and the index.
pub open spec fn spec_verify_point(section: Section, index: u64, bytes: Seq<u8>) -> Result<
    (),
    ReduceError,
> {
    match spec_verify_encoded(section.spec_kind(), bytes) {
        Ok(()) => Ok(()),
        Err(fault) => Err(ReduceError::InvalidPoint { section, index, fault }),
    }
}

/// Checks the bytes read for point `index` of `section`.
pub fn verify_point(section: Section, index: u64, bytes: &[u8]) -> (r: Result<(), ReduceError>)
    ensures
        r == spec_verify_point(section, index, bytes@),
{
    let verdict: Result<(), PointFault> = match section.kind() {
        PointKind::G1 => verify_g1_point(bytes),
        PointKind::G2 => verify_g2_point(bytes),
    };
    match verdict {
        Ok(()) => Ok(()),
        Err(fault) => Err(ReduceError::InvalidPoint { section, index, fault }),
    }
}

/// The verdict on point `i` of section `s` of an accumulator of power `p`
/// that is read from `body`: the input is truncated where the point does
/// not lie wholly inside it, else the point is checked.
pub open spec fn point_verdict(body: Seq<u8>, p: nat, s: Section, i: nat) -> Result<
    (),
    ReduceError,
> {
    if point_offset(p, s, i) + s.spec_kind().spec_width() > body.len() {
        Err(ReduceError::TruncatedInput)
    } else {
        spec_verify_point(s, i as u64, point_bytes(body, p, s, i))
    }
}

/// Every point of the accumulator is there and is accepted.
pub open spec fn all_points_pass(body: Seq<u8>, p: nat) -> bool {
    forall|s: Section, i: nat|
        valid_position(p, s, i) ==> #[trigger] point_verdict(body, p, s, i) is Ok
}

/// Every point that is serialised before point `i` of section `s` is there
/// and is accepted.
pub open spec fn points_before_pass(body: Seq<u8>, p: nat, s: Section, i: nat) -> bool {
    forall|s2: Section, i2: nat|
        valid_position(p, s2, i2) && precedes(s2, i2, s, i) ==> #[trigger] point_verdict(
            body,
            p,
            s2,
            i2,
        ) is Ok
}

/// Point `i` of section `s` is the first that is missing or rejected.
pub open spec fn first_failure(body: Seq<u8>, p: nat, s: Section, i: nat) -> bool {
    &&& valid_position(p, s, i)
    &&& point_verdict(body, p, s, i) is Err
    &&& points_before_pass(body, p, s, i)
}

/// `r` is the verdict on an accumulator of power `p` that is read from
/// `body`: success where every point passes, else the verdict on the first
/// point that does not.
pub open spec fn is_accumulator_verdict(body: Seq<u8>, p: nat, r: Result<(), ReduceError>) -> bool {
    match r {
        Ok(()) => all_points_pass(body, p),
        Err(_) => exists|s: Section, i: nat|
            #[trigger] first_failure(body, p, s, i) && point_verdict(body, p, s, i) == r,
    }
}

/// At most one point is the first to fail.
pub proof fn lemma_first_failure_unique(
    body: Seq<u8>,
    p: nat,
    s1: Section,
    i1: nat,
    s2: Section,
    i2: nat,
)
    requires
        first_failure(body, p, s1, i1),
        first_failure(body, p, s2, i2),
    ensures
        s1 == s2,
        i1 == i2,
{
    if precedes(s1, i1, s2, i2) {
        assert(point_verdict(body, p, s1, i1) is Ok);
    } else if precedes(s2, i2, s1, i1) {
        assert(point_verdict(body, p, s2, i2) is Ok);
    }
}

/// An accumulator has one verdict.
pub proof fn lemma_accumulator_verdict_unique(
    body: Seq<u8>,
    p: nat,
    r1: Result<(), ReduceError>,
    r2: Result<(), ReduceError>,
)
    requires
        is_accumulator_verdict(body, p, r1),
        is_accumulator_verdict(body, p, r2),
    ensures
        r1 == r2,
{
    match (r1, r2) {
        (Ok(()), Ok(())) => {
            // Both hold the one value of the unit type.
            assert(r1->Ok_0 == ());
            assert(r2->Ok_0 == ());
        },
        (Err(_), Err(_)) => {
            let (s1, i1) = choose|s: Section, i: nat|
                #[trigger] first_failure(body, p, s, i) && point_verdict(body, p, s, i) == r1;
            let (s2, i2) = choose|s: Section, i: nat|
                #[trigger] first_failure(body, p, s, i) && point_verdict(body, p, s, i) == r2;
            assert(first_failure(body, p, s1, i1) && point_verdict(body, p, s1, i1) == r1);
            assert(first_failure(body, p, s2, i2) && point_verdict(body, p, s2, i2) == r2);
            lemma_first_failure_unique(body, p, s1, i1, s2, i2);
        },
        (Err(_), Ok(())) => {
            let (s1, i1) = choose|s: Section, i: nat|
                #[trigger] first_failure(body, p, s, i) && point_verdict(body, p, s, i) == r1;
            assert(first_failure(body, p, s1, i1));
            assert(point_verdict(body, p, s1, i1) is Ok);
        },
        (Ok(()), Err(_)) => {
            let (s2, i2) = choose|s: Section, i: nat|
                #[trigger] first_failure(body, p, s, i) && point_verdict(body, p, s, i) == r2;
            assert(first_failure(body, p, s2, i2));
            assert(point_verdict(body, p, s2, i2) is Ok);
        },
    }
}

/// Where one point of an accumulator is rejected and every point before it
/// is there and is accepted, the verdict names that point, whatever comes
/// after it.
pub proof fn lemma_first_rejection_is_reported(
    body: Seq<u8>,
    p: nat,
    s: Section,
    i: nat,
    r: Result<(), ReduceError>,
)
    requires
        is_accumulator_verdict(body, p, r),
        valid_position(p, s, i),
        points_before_pass(body, p, s, i),
        point_offset(p, s, i) + s.spec_kind().spec_width() <= body.len(),
        spec_verify_encoded(s.spec_kind(), point_bytes(body, p, s, i)) is Err,
    ensures
        r == Err::<(), ReduceError>(
            ReduceError::InvalidPoint {
                section: s,
                index: i as u64,
                fault: spec_verify_encoded(s.spec_kind(), point_bytes(body, p, s, i))->Err_0,
            },
        ),
{
    assert(first_failure(body, p, s, i));
    lemma_accumulator_verdict_unique(body, p, r, point_verdict(body, p, s, i));
}

/// Damage inside one point is reported at that point. Where every point of
/// `good` is accepted, and `bad` differs from `good` only in bytes of point
/// `k` of section `s`, which no longer decodes to an acceptable point, the
/// verdict on `bad` names section `s` and index `k`.
pub proof fn lemma_damage_is_reported_at_its_point(
    good: Seq<u8>,
    bad: Seq<u8>,
    p: nat,
    s: Section,
    k: nat,
    r: Result<(), ReduceError>,
)
    requires
        all_points_pass(good, p),
        valid_position(p, s, k),
        bad.len() == good.len(),
        forall|j: int|
            0 <= j < good.len() && !(point_offset(p, s, k) <= j < point_offset(p, s, k)
                + s.spec_kind().spec_width()) ==> bad[j] == good[j],
        spec_verify_encoded(s.spec_kind(), point_bytes(bad, p, s, k)) is Err,
        is_accumulator_verdict(bad, p, r),
    ensures
        r == Err::<(), ReduceError>(
            ReduceError::InvalidPoint {
                section: s,
                index: k as u64,
                fault: spec_verify_encoded(s.spec_kind(), point_bytes(bad, p, s, k))->Err_0,
            },
        ),
{
    assert(point_verdict(good, p, s, k) is Ok);
    assert forall|s2: Section, i2: nat|
        valid_position(p, s2, i2) && precedes(s2, i2, s, k) implies #[trigger] point_verdict(
        bad,
        p,
        s2,
        i2,
    ) is Ok by {
        lemma_points_in_file_order(p, s2, i2, s, k);
        assert(point_verdict(good, p, s2, i2) is Ok);
        assert(point_bytes(bad, p, s2, i2) =~= point_bytes(good, p, s2, i2));
    }
    lemma_first_rejection_is_reported(bad, p, s, k, r);
}

/// Checks every point of an accumulator of power `power` that is held in
/// memory, in the order of the file, and stops at the first point that is
/// missing or rejected. Bytes after the accumulator are not read.
pub fn verify_accumulator(body: &[u8], power: usize) -> (r: Result<(), ReduceError>)
    requires
        power <= MAX_POWER,
    ensures
        is_accumulator_verdict(body@, power as nat, r),
{
    let mut cursor: Cursor = Cursor::new(power);
    let length: usize = body.len();
    loop
        invariant
            cursor.wf(),
            cursor.spec_power() == power,
            power <= MAX_POWER,
            length == body@.len(),
            cursor.spec_offset() <= body@.len(),
            match cursor.spec_position() {
                Some((s, i)) => points_before_pass(body@, power as nat, s, i),
                None => all_points_pass(body@, power as nat),
            },
        decreases spec_expected_accumulator_bytes(power as nat) - cursor.spec_offset(),
    {
        let (section, index): (Section, u64) = match cursor.position() {
            Some(position) => position,
            None => {
                return Ok(());
            },
        };
        let ghost p = power as nat;
        let ghost i = index as nat;
        proof {
            cursor.lemma_wf();
            lemma_next_position_offset(p, section, i);
        }
        let start: u64 = cursor.offset();
        let width: u64 = section.kind().width() as u64;
        if length as u64 - start < width {
            assert(first_failure(body@, p, section, i));
            return Err(ReduceError::TruncatedInput);
        }
        let point: &[u8] = slice_subrange(body, start as usize, (start + width) as usize);
        match verify_point(section, index, point) {
            Ok(()) => {},
            Err(e) => {
                assert(first_failure(body@, p, section, i));
                return Err(e);
            },
        }
        proof {
            assert(point_verdict(body@, p, section, i) is Ok);
            match next_position(p, section, i) {
                Some((following, j)) => {
                    assert forall|s2: Section, i2: nat|
                        valid_position(p, s2, i2) && precedes(
                            s2,
                            i2,
                            following,
                            j,
                        ) implies #[trigger] point_verdict(body@, p, s2, i2) is Ok by {
                        lemma_precedes_next(p, section, i, s2, i2);
                    }
                },
                None => {
                    assert forall|s2: Section, i2: nat|
                        valid_position(p, s2, i2) implies #[trigger] point_verdict(
                        body@,
                        p,
                        s2,
                        i2,
                    ) is Ok by {
                        lemma_precedes_next(p, section, i, s2, i2);
                    }
                },
            }
        }
        cursor.advance();
    }
}

/// `r` is the verdict on a file of power `p`: the input is truncated where
/// it is shorter than a header, else the verdict is that on the accumulator
/// which follows the header.
pub open spec fn is_file_verdict(file: Seq<u8>, p: nat, r: Result<(), ReduceError>) -> bool {
    if file.len() < HEADER_BYTES {
        r == Err::<(), ReduceError>(ReduceError::TruncatedInput)
    } else {
        is_accumulator_verdict(file.subrange(HEADER_BYTES as int, file.len() as int), p, r)
    }
}

/// Checks a reduced file of power `target_power` that is held in memory:
/// passes over the header, then checks every point of the five sections.
pub fn verify_reduced_challenge(file: &[u8], target_power: usize) -> (r: Result<(), ReduceError>)
    requires
        target_power <= MAX_POWER,
    ensures
        is_file_verdict(file@, target_power as nat, r),
{
    let length: usize = file.len();
    if length < HEADER_BYTES {
        return Err(ReduceError::TruncatedInput);
    }
    let body: &[u8] = slice_subrange(file, HEADER_BYTES, length);
    verify_accumulator(body, target_power)
}

} // verus!
