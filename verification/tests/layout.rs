use bellman_ce::pairing::bls12_381::{G1Uncompressed, G2Uncompressed};
use bellman_ce::pairing::EncodedPoint;
use tau_reducer::layout::{
    expected_accumulator_bytes, tau_g1_length, tau_length, PointKind, Section,
    G1_UNCOMPRESSED_BYTE_SIZE, G2_UNCOMPRESSED_BYTE_SIZE, HEADER_BYTES, MAX_POWER, MIN_POWER,
};

const SECTIONS: [Section; 5] = [
    Section::TauPowersG1,
    Section::TauPowersG2,
    Section::AlphaTauPowersG1,
    Section::BetaTauPowersG1,
    Section::BetaG2,
];

#[test]
fn widths_are_those_of_the_curve_library() {
    assert_eq!(G1_UNCOMPRESSED_BYTE_SIZE, G1Uncompressed::size());
    assert_eq!(G2_UNCOMPRESSED_BYTE_SIZE, G2Uncompressed::size());
    assert_eq!(PointKind::G1.width(), 96);
    assert_eq!(PointKind::G2.width(), 192);
}

#[test]
fn constants_of_the_format() {
    assert_eq!(HEADER_BYTES, 64);
    assert_eq!(MIN_POWER, 10);
    assert_eq!(MAX_POWER, 27);
}

#[test]
fn tau_length_is_a_power_of_two() {
    assert_eq!(tau_length(0), 1);
    assert_eq!(tau_length(1), 2);
    assert_eq!(tau_length(10), 1024);
    assert_eq!(tau_length(20), 1_048_576);
    assert_eq!(tau_length(22), 4_194_304);
    assert_eq!(tau_length(27), 134_217_728);
}

#[test]
fn tau_g1_length_is_twice_that_less_one() {
    assert_eq!(tau_g1_length(0), 1);
    assert_eq!(tau_g1_length(1), 3);
    assert_eq!(tau_g1_length(10), 2047);
    assert_eq!(tau_g1_length(20), 2_097_151);
    assert_eq!(tau_g1_length(22), 8_388_607);
    assert_eq!(tau_g1_length(27), 268_435_455);
}

#[test]
fn span_multiplies_by_the_width() {
    assert_eq!(PointKind::G1.span(0), 0);
    assert_eq!(PointKind::G1.span(3), 288);
    assert_eq!(PointKind::G2.span(3), 576);
}

#[test]
fn sections_in_file_order() {
    for (n, section) in SECTIONS.iter().enumerate() {
        assert_eq!(section.ordinal(), n);
        let following = if n + 1 < SECTIONS.len() { Some(SECTIONS[n + 1]) } else { None };
        assert_eq!(section.next(), following);
    }
    assert_eq!(Section::TauPowersG1.kind(), PointKind::G1);
    assert_eq!(Section::TauPowersG2.kind(), PointKind::G2);
    assert_eq!(Section::AlphaTauPowersG1.kind(), PointKind::G1);
    assert_eq!(Section::BetaTauPowersG1.kind(), PointKind::G1);
    assert_eq!(Section::BetaG2.kind(), PointKind::G2);
}

#[test]
fn section_names() {
    assert_eq!(Section::TauPowersG1.name(), "tau_powers_g1");
    assert_eq!(Section::TauPowersG2.name(), "tau_powers_g2");
    assert_eq!(Section::AlphaTauPowersG1.name(), "alpha_tau_powers_g1");
    assert_eq!(Section::BetaTauPowersG1.name(), "beta_tau_powers_g1");
    assert_eq!(Section::BetaG2.name(), "beta_g2");
}

#[test]
fn section_counts_at_power_two() {
    assert_eq!(Section::TauPowersG1.points(2), 7);
    assert_eq!(Section::TauPowersG2.points(2), 4);
    assert_eq!(Section::AlphaTauPowersG1.points(2), 4);
    assert_eq!(Section::BetaTauPowersG1.points(2), 4);
    assert_eq!(Section::BetaG2.points(2), 1);
}

#[test]
fn beta_g2_has_one_point_at_every_power() {
    for power in 0..=MAX_POWER {
        assert_eq!(Section::BetaG2.points(power), 1);
        assert_eq!(Section::BetaG2.bytes(power), 192);
    }
}

#[test]
fn section_bytes_and_offsets_at_power_two() {
    assert_eq!(Section::TauPowersG1.bytes(2), 7 * 96);
    assert_eq!(Section::TauPowersG2.bytes(2), 4 * 192);
    assert_eq!(Section::AlphaTauPowersG1.bytes(2), 4 * 96);
    assert_eq!(Section::BetaTauPowersG1.bytes(2), 4 * 96);
    assert_eq!(Section::TauPowersG1.offset(2), 0);
    assert_eq!(Section::TauPowersG2.offset(2), 672);
    assert_eq!(Section::AlphaTauPowersG1.offset(2), 1440);
    assert_eq!(Section::BetaTauPowersG1.offset(2), 1824);
    assert_eq!(Section::BetaG2.offset(2), 2208);
    assert_eq!(expected_accumulator_bytes(2), 2400);
}

#[test]
fn offsets_add_up_to_the_length() {
    for power in 0..=MAX_POWER {
        let mut total: u64 = 0;
        for section in SECTIONS.iter() {
            assert_eq!(section.offset(power), total);
            total += section.bytes(power);
        }
        assert_eq!(expected_accumulator_bytes(power), total);
    }
}

#[test]
fn expected_bytes_exact_values() {
    assert_eq!(expected_accumulator_bytes(0), 672);
    assert_eq!(expected_accumulator_bytes(10), 589_920);
    assert_eq!(expected_accumulator_bytes(20), 603_979_872);
    assert_eq!(expected_accumulator_bytes(27), 77_309_411_424);
}

#[test]
fn expected_bytes_in_closed_form() {
    for power in 0..=MAX_POWER {
        assert_eq!(expected_accumulator_bytes(power), 576 * (1u64 << power) + 96);
    }
}

#[test]
fn expected_bytes_strictly_increase() {
    for power in 0..MAX_POWER {
        assert!(expected_accumulator_bytes(power) < expected_accumulator_bytes(power + 1));
    }
}
