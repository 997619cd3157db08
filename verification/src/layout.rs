//! The byte layout of an accumulator as a function of its power.

use vstd::arithmetic::power2::*;
use vstd::bits::*;
use vstd::prelude::*;

verus! {

/// Length of the opaque header that precedes the accumulator in a file.
pub const HEADER_BYTES: usize = 64;

/// Smallest power that size detection recognises.
pub const MIN_POWER: usize = 10;

/// Largest power of a ceremony.
pub const MAX_POWER: usize = 27;

/// Encoded width of an uncompressed point of the first group.
pub const G1_UNCOMPRESSED_BYTE_SIZE: usize = 96;

/// Encoded width of an uncompressed point of the second group.
pub const G2_UNCOMPRESSED_BYTE_SIZE: usize = 192;

/// The two point representations of the format.
#[derive(Clone, Copy, Debug, PartialEq, Eq, Structural)]
pub enum PointKind {
    G1,
    G2,
}

impl PointKind {
    /// Encoded width in bytes.
    pub open spec fn spec_width(self) -> nat {
        match self {
            PointKind::G1 => G1_UNCOMPRESSED_BYTE_SIZE as nat,
            PointKind::G2 => G2_UNCOMPRESSED_BYTE_SIZE as nat,
        }
    }

    /// Encoded width in bytes.
    pub fn width(self) -> (w: usize)
        ensures
            w == self.spec_width(),
    {
        match self {
            PointKind::G1 => G1_UNCOMPRESSED_BYTE_SIZE,
            PointKind::G2 => G2_UNCOMPRESSED_BYTE_SIZE,
        }
    }

    /// Number of bytes that `points` consecutive points of this kind take.
    pub open spec fn spec_span(self, points: nat) -> nat {
        match self {
            PointKind::G1 => points * (G1_UNCOMPRESSED_BYTE_SIZE as nat),
            PointKind::G2 => points * (G2_UNCOMPRESSED_BYTE_SIZE as nat),
        }
    }

    /// Number of bytes that `points` consecutive points of this kind take.
    pub fn span(self, points: u64) -> (n: u64)
        requires
            self.spec_span(points as nat) <= u64::MAX,
        ensures
            n == self.spec_span(points as nat),
    {
        match self {
            PointKind::G1 => points * (G1_UNCOMPRESSED_BYTE_SIZE as u64),
            PointKind::G2 => points * (G2_UNCOMPRESSED_BYTE_SIZE as u64),
        }
    }
}

/// `2^p`: the number of points in each section but the first and the last.
pub open spec fn spec_tau_length(p: nat) -> nat {
    pow2(p)
}

/// `2 * 2^p - 1`: the number of points in the first section.
pub open spec fn spec_tau_g1_length(p: nat) -> nat {
    (2 * pow2(p) - 1) as nat
}

/// For powers up to the maximum, `2^p` is at most `2^27`.
pub proof fn lemma_tau_length_bounds(p: nat)
    requires
        p <= MAX_POWER,
    ensures
        1 <= spec_tau_length(p) <= 0x800_0000,
{
    lemma2_to64();
    lemma_pow2_pos(p);
    if p < 27 {
        lemma_pow2_strictly_increases(p, 27);
    }
}

/// `2^power`.
pub fn tau_length(power: usize) -> (n: u64)
    requires
        power <= MAX_POWER,
    ensures
        n == spec_tau_length(power as nat),
{
    proof {
        lemma_tau_length_bounds(power as nat);
        lemma_u64_shl_is_mul(1u64, power as u64);
    }
    1u64 << power
}

/// `2 * 2^power - 1`.
pub fn tau_g1_length(power: usize) -> (n: u64)
    requires
        power <= MAX_POWER,
    ensures
        n == spec_tau_g1_length(power as nat),
{
    proof {
        lemma_tau_length_bounds(power as nat);
    }
    let tau_powers_length: u64 = tau_length(power);
    2 * tau_powers_length - 1
}

/// The five sections of an accumulator, in the order in which they are
/// serialised.
#[derive(Clone, Copy, Debug, PartialEq, Eq, Structural)]
pub enum Section {
    TauPowersG1,
    TauPowersG2,
    AlphaTauPowersG1,
    BetaTauPowersG1,
    BetaG2,
}

impl Section {
    /// Position of the section in the file, counted from zero.
    pub open spec fn spec_ordinal(self) -> int {
        match self {
            Section::TauPowersG1 => 0,
            Section::TauPowersG2 => 1,
            Section::AlphaTauPowersG1 => 2,
            Section::BetaTauPowersG1 => 3,
            Section::BetaG2 => 4,
        }
    }

    /// The kind of point that the section holds.
    pub open spec fn spec_kind(self) -> PointKind {
        match self {
            Section::TauPowersG1 => PointKind::G1,
            Section::TauPowersG2 => PointKind::G2,
            Section::AlphaTauPowersG1 => PointKind::G1,
            Section::BetaTauPowersG1 => PointKind::G1,
            Section::BetaG2 => PointKind::G2,
        }
    }

    /// The section that follows this one, if any.
    pub open spec fn spec_next(self) -> Option<Section> {
        match self {
            Section::TauPowersG1 => Some(Section::TauPowersG2),
            Section::TauPowersG2 => Some(Section::AlphaTauPowersG1),
            Section::AlphaTauPowersG1 => Some(Section::BetaTauPowersG1),
            Section::BetaTauPowersG1 => Some(Section::BetaG2),
            Section::BetaG2 => None,
        }
    }

    /// Number of points of the section in an accumulator of power `p`.
    pub open spec fn spec_points(self, p: nat) -> nat {
        match self {
            Section::TauPowersG1 => spec_tau_g1_length(p),
            Section::TauPowersG2 => spec_tau_length(p),
            Section::AlphaTauPowersG1 => spec_tau_length(p),
            Section::BetaTauPowersG1 => spec_tau_length(p),
            Section::BetaG2 => 1,
        }
    }

    /// Number of bytes of the section in an accumulator of power `p`.
    pub open spec fn spec_bytes(self, p: nat) -> nat {
        self.spec_kind().spec_span(self.spec_points(p))
    }

    /// Offset of the section's first byte from the start of an accumulator
    /// of power `p`: the lengths of the sections before it, added up.
    pub open spec fn spec_offset(self, p: nat) -> nat {
        match self {
            Section::TauPowersG1 => 0,
            Section::TauPowersG2 => Section::TauPowersG1.spec_bytes(p),
            Section::AlphaTauPowersG1 => Section::TauPowersG1.spec_bytes(p)
                + Section::TauPowersG2.spec_bytes(p),
            Section::BetaTauPowersG1 => Section::TauPowersG1.spec_bytes(p)
                + Section::TauPowersG2.spec_bytes(p) + Section::AlphaTauPowersG1.spec_bytes(p),
            Section::BetaG2 => Section::TauPowersG1.spec_bytes(p) + Section::TauPowersG2.spec_bytes(
                p,
            ) + Section::AlphaTauPowersG1.spec_bytes(p) + Section::BetaTauPowersG1.spec_bytes(p),
        }
    }

    /// The name of the section in the ceremony's format.
    pub open spec fn spec_name(self) -> Seq<char> {
        match self {
            Section::TauPowersG1 => "tau_powers_g1"@,
            Section::TauPowersG2 => "tau_powers_g2"@,
            Section::AlphaTauPowersG1 => "alpha_tau_powers_g1"@,
            Section::BetaTauPowersG1 => "beta_tau_powers_g1"@,
            Section::BetaG2 => "beta_g2"@,
        }
    }

    /// The name of the section in the ceremony's format.
    pub fn name(self) -> (name: &'static str)
        ensures
            name@ == self.spec_name(),
    {
        match self {
            Section::TauPowersG1 => "tau_powers_g1",
            Section::TauPowersG2 => "tau_powers_g2",
            Section::AlphaTauPowersG1 => "alpha_tau_powers_g1",
            Section::BetaTauPowersG1 => "beta_tau_powers_g1",
            Section::BetaG2 => "beta_g2",
        }
    }

    /// Position of the section in the file, counted from zero.
    pub fn ordinal(self) -> (n: usize)
        ensures
            n == self.spec_ordinal(),
    {
        match self {
            Section::TauPowersG1 => 0,
            Section::TauPowersG2 => 1,
            Section::AlphaTauPowersG1 => 2,
            Section::BetaTauPowersG1 => 3,
            Section::BetaG2 => 4,
        }
    }

    /// The kind of point that the section holds.
    pub fn kind(self) -> (k: PointKind)
        ensures
            k == self.spec_kind(),
    {
        match self {
            Section::TauPowersG1 => PointKind::G1,
            Section::TauPowersG2 => PointKind::G2,
            Section::AlphaTauPowersG1 => PointKind::G1,
            Section::BetaTauPowersG1 => PointKind::G1,
            Section::BetaG2 => PointKind::G2,
        }
    }

    /// The section that follows this one, if any.
    pub fn next(self) -> (n: Option<Section>)
        ensures
            n == self.spec_next(),
    {
        match self {
            Section::TauPowersG1 => Some(Section::TauPowersG2),
            Section::TauPowersG2 => Some(Section::AlphaTauPowersG1),
            Section::AlphaTauPowersG1 => Some(Section::BetaTauPowersG1),
            Section::BetaTauPowersG1 => Some(Section::BetaG2),
            Section::BetaG2 => None,
        }
    }

    /// Number of points of the section in an accumulator of power `power`.
    pub fn points(self, power: usize) -> (n: u64)
        requires
            power <= MAX_POWER,
        ensures
            n == self.spec_points(power as nat),
    {
        match self {
            Section::TauPowersG1 => tau_g1_length(power),
            Section::BetaG2 => 1,
            _ => tau_length(power),
        }
    }

    /// Number of bytes of the section in an accumulator of power `power`.
    pub fn bytes(self, power: usize) -> (n: u64)
        requires
            power <= MAX_POWER,
        ensures
            n == self.spec_bytes(power as nat),
    {
        proof {
            lemma_tau_length_bounds(power as nat);
        }
        self.kind().span(self.points(power))
    }

    /// Offset of the section's first byte from the start of an accumulator
    /// of power `power`.
    pub fn offset(self, power: usize) -> (n: u64)
        requires
            power <= MAX_POWER,
        ensures
            n == self.spec_offset(power as nat),
    {
        proof {
            lemma_tau_length_bounds(power as nat);
        }
        let g1_powers: u64 = Section::TauPowersG1.bytes(power);
        let g2_powers: u64 = Section::TauPowersG2.bytes(power);
        let alpha: u64 = Section::AlphaTauPowersG1.bytes(power);
        let beta: u64 = Section::BetaTauPowersG1.bytes(power);
        match self {
            Section::TauPowersG1 => 0,
            Section::TauPowersG2 => g1_powers,
            Section::AlphaTauPowersG1 => g1_powers + g2_powers,
            Section::BetaTauPowersG1 => g1_powers + g2_powers + alpha,
            Section::BetaG2 => g1_powers + g2_powers + alpha + beta,
        }
    }
}

/// Length in bytes of an accumulator of power `p`: the lengths of its five
/// sections, added up.
pub open spec fn spec_expected_accumulator_bytes(p: nat) -> nat {
    Section::TauPowersG1.spec_bytes(p) + Section::TauPowersG2.spec_bytes(p)
        + Section::AlphaTauPowersG1.spec_bytes(p) + Section::BetaTauPowersG1.spec_bytes(p)
        + Section::BetaG2.spec_bytes(p)
}

/// The length of an accumulator in closed form: `576 * 2^p + 96`.
pub proof fn lemma_expected_bytes_closed_form(p: nat)
    ensures
        spec_expected_accumulator_bytes(p) == 576 * pow2(p) + 96,
{
    lemma_pow2_pos(p);
}

/// The length of an accumulator grows strictly with its power.
pub proof fn lemma_expected_bytes_strictly_increasing(p: nat, q: nat)
    requires
        p < q,
    ensures
        spec_expected_accumulator_bytes(p) < spec_expected_accumulator_bytes(q),
{
    lemma_expected_bytes_closed_form(p);
    lemma_expected_bytes_closed_form(q);
    lemma_pow2_strictly_increases(p, q);
}

/// Length in bytes of an accumulator of power `power`.
pub fn expected_accumulator_bytes(power: usize) -> (n: u64)
    requires
        power <= MAX_POWER,
    ensures
        n == spec_expected_accumulator_bytes(power as nat),
{
    proof {
        lemma_tau_length_bounds(power as nat);
    }
    let tau_powers_length: u64 = tau_length(power);
    let tau_powers_g1_length: u64 = tau_g1_length(power);
    let g1: u64 = G1_UNCOMPRESSED_BYTE_SIZE as u64;
    let g2: u64 = G2_UNCOMPRESSED_BYTE_SIZE as u64;
    tau_powers_g1_length * g1 + tau_powers_length * g2 + tau_powers_length * g1
        + tau_powers_length * g1 + g2
}

} // verus!
