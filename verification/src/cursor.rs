//! A walk over the points of an accumulator, in the order in which they are
//! serialised.

use crate::layout::{
    lemma_tau_length_bounds, spec_expected_accumulator_bytes, Section, MAX_POWER,
};
use vstd::prelude::*;

verus! {

/// `(s, i)` names a point of an accumulator of power `p`: the section has a
/// point of index `i`.
pub open spec fn valid_position(p: nat, s: Section, i: nat) -> bool {
    i < s.spec_points(p)
}

/// Offset of point `i` of section `s` from the start of an accumulator of
/// power `p`.
pub open spec fn point_offset(p: nat, s: Section, i: nat) -> nat {
    s.spec_offset(p) + s.spec_kind().spec_span(i)
}

/// The bytes of point `i` of section `s` in an accumulator `body` of power
/// `p`.
pub open spec fn point_bytes(body: Seq<u8>, p: nat, s: Section, i: nat) -> Seq<u8> {
    body.subrange(
        point_offset(p, s, i) as int,
        (point_offset(p, s, i) + s.spec_kind().spec_width()) as int,
    )
}

/// Point `(s1, i1)` is serialised before point `(s2, i2)`.
pub open spec fn precedes(s1: Section, i1: nat, s2: Section, i2: nat) -> bool {
    s1.spec_ordinal() < s2.spec_ordinal() || (s1 == s2 && i1 < i2)
}

/// The point that follows point `i` of section `s` in an accumulator of
/// power `p`, or `None` after the last point.
pub open spec fn next_position(p: nat, s: Section, i: nat) -> Option<(Section, nat)> {
    if i + 1 < s.spec_points(p) {
        Some((s, i + 1))
    } else {
        match s.spec_next() {
            Some(following) => Some((following, 0nat)),
            None => None,
        }
    }
}

/// Number of bytes of an accumulator of power `p` that lie before a
/// position; past the last point, the whole length.
pub open spec fn position_offset(p: nat, position: Option<(Section, nat)>) -> nat {
    match position {
        Some((s, i)) => point_offset(p, s, i),
        None => spec_expected_accumulator_bytes(p),
    }
}

/// A point lies wholly inside the accumulator, and the position after it
/// starts where the point ends.
pub proof fn lemma_next_position_offset(p: nat, s: Section, i: nat)
    requires
        valid_position(p, s, i),
    ensures
        position_offset(p, next_position(p, s, i)) == point_offset(p, s, i)
            + s.spec_kind().spec_width(),
        point_offset(p, s, i) + s.spec_kind().spec_width() <= spec_expected_accumulator_bytes(p),
        match next_position(p, s, i) {
            Some((s2, i2)) => valid_position(p, s2, i2) && precedes(s, i, s2, i2),
            None => true,
        },
{
    vstd::arithmetic::power2::lemma_pow2_pos(p);
}

/// The points before the position that follows a point are the points
/// before that point and the point itself; after the last point, every
/// point has been passed.
pub proof fn lemma_precedes_next(p: nat, s: Section, i: nat, s2: Section, i2: nat)
    requires
        valid_position(p, s, i),
        valid_position(p, s2, i2),
    ensures
        match next_position(p, s, i) {
            Some((following, j)) => precedes(s2, i2, following, j) <==> (precedes(s2, i2, s, i) || (
            s2 == s && i2 == i)),
            None => precedes(s2, i2, s, i) || (s2 == s && i2 == i),
        },
{
}

/// Points lie in the file in the order of `precedes`, and do not overlap:
/// a point ends before any later point starts.
pub proof fn lemma_points_in_file_order(p: nat, s1: Section, i1: nat, s2: Section, i2: nat)
    requires
        valid_position(p, s1, i1),
        valid_position(p, s2, i2),
        precedes(s1, i1, s2, i2),
    ensures
        point_offset(p, s1, i1) + s1.spec_kind().spec_width() <= point_offset(p, s2, i2),
{
    vstd::arithmetic::power2::lemma_pow2_pos(p);
}

/// No section of an accumulator is empty.
pub proof fn lemma_sections_not_empty(p: nat, s: Section)
    ensures
        valid_position(p, s, 0),
{
    vstd::arithmetic::power2::lemma_pow2_pos(p);
}

/// The place of the next point to be read in an accumulator of a given
/// power.
#[derive(Debug)]
pub struct Cursor {
    power: usize,
    section: Option<Section>,
    index: u64,
    offset: u64,
}

impl Cursor {
    /// The power of the accumulator that the cursor walks.
    pub closed spec fn spec_power(self) -> nat {
        self.power as nat
    }

    /// The next point to be read: its section and its index there; `None`
    /// after the last point.
    pub closed spec fn spec_position(self) -> Option<(Section, nat)> {
        match self.section {
            Some(s) => Some((s, self.index as nat)),
            None => None,
        }
    }

    /// The cursor names a point of its accumulator, or stands after the last.
    pub closed spec fn wf(self) -> bool {
        &&& self.power <= MAX_POWER
        &&& match self.section {
            Some(s) => valid_position(self.power as nat, s, self.index as nat),
            None => self.index == 0,
        }
        &&& self.offset == position_offset(self.spec_power(), self.spec_position())
    }

    /// Number of bytes of the accumulator that lie before the cursor.
    pub open spec fn spec_offset(self) -> nat {
        position_offset(self.spec_power(), self.spec_position())
    }

    /// What a well-formed cursor stands on: a point of an accumulator of a
    /// supported power, or the end of one.
    pub proof fn lemma_wf(self)
        requires
            self.wf(),
        ensures
            self.spec_power() <= MAX_POWER,
            match self.spec_position() {
                Some((s, i)) => valid_position(self.spec_power(), s, i),
                None => true,
            },
    {
    }

    /// A cursor at the first point of an accumulator of power `power`.
    pub fn new(power: usize) -> (c: Cursor)
        requires
            power <= MAX_POWER,
        ensures
            c.wf(),
            c.spec_power() == power,
            c.spec_position() == Some((Section::TauPowersG1, 0nat)),
    {
        proof {
            lemma_sections_not_empty(power as nat, Section::TauPowersG1);
        }
        Cursor { power, section: Some(Section::TauPowersG1), index: 0, offset: 0 }
    }

    /// The power of the accumulator that the cursor walks.
    pub fn power(&self) -> (p: usize)
        ensures
            p == self.spec_power(),
            self.wf() ==> p <= MAX_POWER,
    {
        self.power
    }

    /// The next point to be read, or `None` after the last point.
    pub fn position(&self) -> (r: Option<(Section, u64)>)
        ensures
            match r {
                Some((s, i)) => self.spec_position() == Some((s, i as nat)),
                None => self.spec_position() is None,
            },
    {
        match self.section {
            Some(s) => Some((s, self.index)),
            None => None,
        }
    }

    /// Whether every point has been passed.
    pub fn is_done(&self) -> (done: bool)
        ensures
            done == (self.spec_position() is None),
    {
        self.section.is_none()
    }

    /// Number of bytes of the accumulator that lie before the cursor.
    pub fn offset(&self) -> (n: u64)
        requires
            self.wf(),
        ensures
            n == self.spec_offset(),
    {
        self.offset
    }

    /// Moves to the point that follows.
    pub fn advance(&mut self)
        requires
            old(self).wf(),
            old(self).spec_position() is Some,
        ensures
            final(self).wf(),
            final(self).spec_power() == old(self).spec_power(),
            match old(self).spec_position() {
                Some((s, i)) => final(self).spec_position() == next_position(
                    old(self).spec_power(),
                    s,
                    i,
                ),
                None => false,
            },
    {
        let section: Section = match self.section {
            Some(s) => s,
            None => Section::BetaG2,
        };
        proof {
            lemma_tau_length_bounds(self.power as nat);
            lemma_next_position_offset(self.power as nat, section, self.index as nat);
        }
        let width: u64 = section.kind().width() as u64;
        let points: u64 = section.points(self.power);
        self.offset = self.offset + width;
        if self.index + 1 < points {
            self.index = self.index + 1;
        } else {
            self.section = section.next();
            self.index = 0;
        }
    }
}

} // verus!
