use bellman_ce::pairing::bls12_381::{Fr, G1Affine, G2Affine};
use bellman_ce::pairing::ff::PrimeField;
use bellman_ce::pairing::{CurveAffine, CurveProjective, EncodedPoint};
use tau_reducer::cursor::Cursor;
use tau_reducer::error::{PointFault, ReduceError};
use tau_reducer::layout::{expected_accumulator_bytes, PointKind, Section};
use tau_reducer::reduce::reduce_accumulator;
use tau_reducer::validate::{
    classify, verify_accumulator, verify_g1_point, verify_g2_point, verify_point,
    verify_reduced_challenge,
};

const FIVE_SECTIONS: [Section; 5] = [
    Section::TauPowersG1,
    Section::TauPowersG2,
    Section::AlphaTauPowersG1,
    Section::BetaTauPowersG1,
    Section::BetaG2,
];

fn scalar(k: u64) -> Fr {
    Fr::from_str(&format!("{}", k)).unwrap()
}

/// The encoding of `k` times the generator of the first group.
fn g1_bytes(k: u64) -> Vec<u8> {
    let point = G1Affine::one().mul(scalar(k)).into_affine();
    point.into_uncompressed().as_ref().to_vec()
}

/// The encoding of `k` times the generator of the second group.
fn g2_bytes(k: u64) -> Vec<u8> {
    let point = G2Affine::one().mul(scalar(k)).into_affine();
    point.into_uncompressed().as_ref().to_vec()
}

fn g1_identity_bytes() -> Vec<u8> {
    G1Affine::zero().into_uncompressed().as_ref().to_vec()
}

fn g2_identity_bytes() -> Vec<u8> {
    G2Affine::zero().into_uncompressed().as_ref().to_vec()
}

fn point_of(section: Section, index: u64) -> Vec<u8> {
    let k = 1 + 100 * section.ordinal() as u64 + index;
    match section.kind() {
        PointKind::G1 => g1_bytes(k),
        PointKind::G2 => g2_bytes(k),
    }
}

/// An accumulator of power `power` in which every point is a different
/// multiple of a generator.
fn valid_accumulator(power: usize) -> Vec<u8> {
    let mut body = Vec::new();
    for section in FIVE_SECTIONS.iter() {
        for index in 0..section.points(power) {
            body.extend_from_slice(&point_of(*section, index));
        }
    }
    assert_eq!(body.len() as u64, expected_accumulator_bytes(power));
    body
}

fn place_of(power: usize, section: Section, index: u64) -> usize {
    section.offset(power) as usize + index as usize * section.kind().width()
}

fn invalid(section: Section, index: u64, fault: PointFault) -> Result<(), ReduceError> {
    Err(ReduceError::InvalidPoint { section, index, fault })
}

#[test]
fn classify_accepts_only_a_point_other_than_the_identity() {
    assert_eq!(classify(Some(false)), Ok(()));
    assert_eq!(classify(Some(true)), Err(PointFault::Identity));
    assert_eq!(classify(None), Err(PointFault::Malformed));
}

#[test]
fn generator_of_g1_is_accepted() {
    let bytes = G1Affine::one().into_uncompressed();
    assert_eq!(verify_g1_point(bytes.as_ref()), Ok(()));
    assert_eq!(verify_g1_point(&g1_bytes(12345)), Ok(()));
}

#[test]
fn generator_of_g2_is_accepted() {
    let bytes = G2Affine::one().into_uncompressed();
    assert_eq!(verify_g2_point(bytes.as_ref()), Ok(()));
    assert_eq!(verify_g2_point(&g2_bytes(12345)), Ok(()));
}

#[test]
fn identity_of_g1_is_rejected_as_identity() {
    let bytes = g1_identity_bytes();
    assert_eq!(bytes.len(), 96);
    assert_eq!(bytes[0], 0x40);
    assert_eq!(verify_g1_point(&bytes), Err(PointFault::Identity));
}

#[test]
fn identity_of_g2_is_rejected_as_identity() {
    let bytes = g2_identity_bytes();
    assert_eq!(bytes.len(), 192);
    assert_eq!(verify_g2_point(&bytes), Err(PointFault::Identity));
}

#[test]
fn bytes_off_the_curve_are_malformed() {
    assert_eq!(verify_g1_point(&[0u8; 96]), Err(PointFault::Malformed));
    assert_eq!(verify_g2_point(&[0u8; 192]), Err(PointFault::Malformed));
    assert_eq!(verify_g1_point(&[1u8; 96]), Err(PointFault::Malformed));
    assert_eq!(verify_g2_point(&[1u8; 192]), Err(PointFault::Malformed));
}

#[test]
fn bytes_with_flags_of_another_encoding_are_malformed() {
    // The compression flag on an uncompressed point.
    let mut bytes = g1_bytes(3);
    bytes[0] |= 0x80;
    assert_eq!(verify_g1_point(&bytes), Err(PointFault::Malformed));
    // The identity flag with coordinates behind it.
    let mut bytes = g1_bytes(3);
    bytes[0] |= 0x40;
    assert_eq!(verify_g1_point(&bytes), Err(PointFault::Malformed));
    // The flag that orders the roots, which an uncompressed point has not.
    let mut bytes = g2_bytes(3);
    bytes[0] |= 0x20;
    assert_eq!(verify_g2_point(&bytes), Err(PointFault::Malformed));
    // A coordinate that is no element of the field.
    assert_eq!(verify_g1_point(&[0x1F; 96]), Err(PointFault::Malformed));
}

#[test]
fn bytes_of_another_length_are_malformed() {
    let g1 = g1_bytes(2);
    let g2 = g2_bytes(2);
    assert_eq!(verify_g1_point(&g1[..95]), Err(PointFault::Malformed));
    assert_eq!(verify_g1_point(&[]), Err(PointFault::Malformed));
    assert_eq!(verify_g1_point(&g2), Err(PointFault::Malformed));
    assert_eq!(verify_g2_point(&g1), Err(PointFault::Malformed));
    assert_eq!(verify_g2_point(&g2[..191]), Err(PointFault::Malformed));
    let mut long = g1.clone();
    long.push(0);
    assert_eq!(verify_g1_point(&long), Err(PointFault::Malformed));
}

#[test]
fn verify_point_goes_by_the_kind_of_the_section() {
    let g1 = g1_bytes(7);
    let g2 = g2_bytes(7);
    assert_eq!(verify_point(Section::TauPowersG1, 0, &g1), Ok(()));
    assert_eq!(verify_point(Section::AlphaTauPowersG1, 3, &g1), Ok(()));
    assert_eq!(verify_point(Section::BetaTauPowersG1, 3, &g1), Ok(()));
    assert_eq!(verify_point(Section::TauPowersG2, 1, &g2), Ok(()));
    assert_eq!(verify_point(Section::BetaG2, 0, &g2), Ok(()));
    assert_eq!(
        verify_point(Section::TauPowersG2, 1, &g1),
        invalid(Section::TauPowersG2, 1, PointFault::Malformed)
    );
    assert_eq!(
        verify_point(Section::TauPowersG1, 9, &g2),
        invalid(Section::TauPowersG1, 9, PointFault::Malformed)
    );
}

#[test]
fn verify_point_names_section_and_index() {
    assert_eq!(
        verify_point(Section::AlphaTauPowersG1, 41, &g1_identity_bytes()),
        invalid(Section::AlphaTauPowersG1, 41, PointFault::Identity)
    );
    assert_eq!(
        verify_point(Section::BetaG2, 0, &g2_identity_bytes()),
        invalid(Section::BetaG2, 0, PointFault::Identity)
    );
    assert_eq!(
        verify_point(Section::TauPowersG1, 5, &[0xFF; 96]),
        invalid(Section::TauPowersG1, 5, PointFault::Malformed)
    );
}

#[test]
fn accumulator_of_valid_points_passes() {
    for power in 0..=2 {
        assert_eq!(verify_accumulator(&valid_accumulator(power), power), Ok(()));
    }
}

#[test]
fn one_corrupted_byte_is_reported_at_its_point() {
    let power = 1;
    let body = valid_accumulator(power);
    for section in FIVE_SECTIONS.iter() {
        for index in 0..section.points(power) {
            let place = place_of(power, *section, index);
            let width = section.kind().width();
            for within in [1, width / 2, width - 1] {
                let mut damaged = body.clone();
                damaged[place + within] ^= 0x01;
                assert_eq!(
                    verify_accumulator(&damaged, power),
                    invalid(*section, index, PointFault::Malformed)
                );
            }
        }
    }
}

#[test]
fn corrupted_point_in_the_middle_of_a_section_is_reported_with_its_index() {
    let power = 2;
    let mut body = valid_accumulator(power);
    let place = place_of(power, Section::TauPowersG2, 2);
    body[place + 100] ^= 0x10;
    assert_eq!(
        verify_accumulator(&body, power),
        invalid(Section::TauPowersG2, 2, PointFault::Malformed)
    );
}

#[test]
fn identity_in_an_accumulator_is_reported_at_its_point() {
    let power = 1;
    let mut body = valid_accumulator(power);
    let place = place_of(power, Section::BetaTauPowersG1, 1);
    body[place..place + 96].copy_from_slice(&g1_identity_bytes());
    assert_eq!(
        verify_accumulator(&body, power),
        invalid(Section::BetaTauPowersG1, 1, PointFault::Identity)
    );
    let mut body = valid_accumulator(power);
    let place = place_of(power, Section::BetaG2, 0);
    body[place..place + 192].copy_from_slice(&g2_identity_bytes());
    assert_eq!(
        verify_accumulator(&body, power),
        invalid(Section::BetaG2, 0, PointFault::Identity)
    );
}

#[test]
fn only_the_first_of_two_bad_points_is_reported() {
    let power = 1;
    let mut body = valid_accumulator(power);
    let late = place_of(power, Section::BetaG2, 0);
    body[late + 7] ^= 0x04;
    let early = place_of(power, Section::TauPowersG2, 1);
    body[early..early + 192].copy_from_slice(&g2_identity_bytes());
    assert_eq!(
        verify_accumulator(&body, power),
        invalid(Section::TauPowersG2, 1, PointFault::Identity)
    );
    let earlier = place_of(power, Section::TauPowersG1, 2);
    body[earlier + 50] ^= 0x04;
    assert_eq!(
        verify_accumulator(&body, power),
        invalid(Section::TauPowersG1, 2, PointFault::Malformed)
    );
}

#[test]
fn accumulator_cut_short_is_truncated_input() {
    let power = 1;
    let body = valid_accumulator(power);
    let full = body.len();
    for cut in [0, 95, 96, 288, 300, full - 192, full - 1] {
        assert_eq!(verify_accumulator(&body[..cut], power), Err(ReduceError::TruncatedInput));
    }
}

#[test]
fn bad_point_before_the_cut_is_reported_rather_than_the_cut() {
    let power = 1;
    let mut body = valid_accumulator(power);
    let place = place_of(power, Section::TauPowersG1, 1);
    body[place + 3] ^= 0x01;
    let full = body.len();
    assert_eq!(
        verify_accumulator(&body[..full - 10], power),
        invalid(Section::TauPowersG1, 1, PointFault::Malformed)
    );
}

#[test]
fn accumulator_read_at_a_larger_power_than_it_has_fails() {
    // Read as power 1, the second section of a power-0 accumulator starts
    // in the middle of a point of the second group.
    let body = valid_accumulator(0);
    assert_eq!(
        verify_accumulator(&body, 1),
        invalid(Section::TauPowersG1, 1, PointFault::Malformed)
    );
}

#[test]
fn bytes_after_the_last_point_are_not_read() {
    let mut body = valid_accumulator(1);
    body.extend_from_slice(&[0xEE; 40]);
    assert_eq!(verify_accumulator(&body, 1), Ok(()));
}

#[test]
fn file_of_valid_points_passes_whatever_the_header() {
    let mut file = vec![0x5A; 64];
    file.extend_from_slice(&valid_accumulator(1));
    assert_eq!(verify_reduced_challenge(&file, 1), Ok(()));
    for byte in file[..64].iter_mut() {
        *byte = 0xFF;
    }
    assert_eq!(verify_reduced_challenge(&file, 1), Ok(()));
}

#[test]
fn file_shorter_than_a_header_is_truncated_input() {
    assert_eq!(verify_reduced_challenge(&[], 0), Err(ReduceError::TruncatedInput));
    assert_eq!(verify_reduced_challenge(&[0; 63], 0), Err(ReduceError::TruncatedInput));
    assert_eq!(verify_reduced_challenge(&[0; 64], 0), Err(ReduceError::TruncatedInput));
}

#[test]
fn corrupted_byte_in_a_file_is_reported_at_its_point() {
    let power = 1;
    let mut file = vec![0u8; 64];
    file.extend_from_slice(&valid_accumulator(power));
    let place = 64 + place_of(power, Section::AlphaTauPowersG1, 1);
    file[place + 20] ^= 0x80;
    assert_eq!(
        verify_reduced_challenge(&file, power),
        invalid(Section::AlphaTauPowersG1, 1, PointFault::Malformed)
    );
}

#[test]
fn reduced_accumulator_of_valid_points_passes() {
    let body = valid_accumulator(2);
    for target in 0..=2 {
        let reduced = reduce_accumulator(&body, 2, target).unwrap();
        assert_eq!(verify_accumulator(&reduced, target), Ok(()));
        for section in FIVE_SECTIONS.iter() {
            for index in 0..section.points(target) {
                let place = place_of(target, *section, index);
                let width = section.kind().width();
                assert_eq!(&reduced[place..place + width], &point_of(*section, index)[..]);
            }
        }
    }
}

#[test]
fn bad_point_that_a_reduction_drops_does_not_fail_the_output() {
    let mut body = valid_accumulator(2);
    let place = place_of(2, Section::TauPowersG1, 5);
    body[place + 1] ^= 0x02;
    assert_eq!(
        verify_accumulator(&body, 2),
        invalid(Section::TauPowersG1, 5, PointFault::Malformed)
    );
    let reduced = reduce_accumulator(&body, 2, 1).unwrap();
    assert_eq!(verify_accumulator(&reduced, 1), Ok(()));
}

#[test]
fn point_by_point_check_agrees_with_the_check_in_memory() {
    let power = 1;
    let mut body = valid_accumulator(power);
    let place = place_of(power, Section::BetaTauPowersG1, 0);
    body[place + 60] ^= 0x08;
    let mut cursor = Cursor::new(power);
    let mut verdict = Ok(());
    while let Some((section, index)) = cursor.position() {
        let start = cursor.offset() as usize;
        let width = section.kind().width();
        verdict = verify_point(section, index, &body[start..start + width]);
        if verdict.is_err() {
            break;
        }
        cursor.advance();
    }
    assert_eq!(verdict, invalid(Section::BetaTauPowersG1, 0, PointFault::Malformed));
    assert_eq!(verdict, verify_accumulator(&body, power));
}
