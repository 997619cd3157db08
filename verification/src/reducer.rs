//! The decisions of a streaming reduction: for each point of the input, in
//! order, whether it is copied to the output or dropped.

use crate::cursor::{
    lemma_next_position_offset, next_position, position_offset, valid_position, Cursor,
};
use crate::error::ReduceError;
use crate::layout::{
    lemma_tau_length_bounds, spec_expected_accumulator_bytes, PointKind, Section, MAX_POWER,
};
use vstd::arithmetic::power2::{lemma_pow2_pos, lemma_pow2_strictly_increases};
use vstd::prelude::*;

verus! {

/// What is to be done with the next point of the input.
#[derive(Clone, Copy, Debug, PartialEq, Eq, Structural)]
pub enum Action {
    /// Read one point of this kind and write it to the output.
    Copy(PointKind),
    /// Read one point of this kind and drop it.
    Skip(PointKind),
    /// Every section has been passed: flush the output.
    Finish,
}

/// A reduction to power `t` keeps point `i` of section `s`: the section of
/// the smaller accumulator has a point of that index.
pub open spec fn retains(t: nat, s: Section, i: nat) -> bool {
    valid_position(t, s, i)
}

/// The action that a reduction to power `t` takes at a position of the
/// input.
pub open spec fn action_at(t: nat, position: Option<(Section, nat)>) -> Action {
    match position {
        Some((s, i)) => if retains(t, s, i) {
            Action::Copy(s.spec_kind())
        } else {
            Action::Skip(s.spec_kind())
        },
        None => Action::Finish,
    }
}

/// Number of bytes that a reduction to power `t` has written when it
/// reaches a position of the input: the sections before it at their reduced
/// length, and of the section itself the points before the position, as far
/// as they are kept.
pub open spec fn retained_before(t: nat, position: Option<(Section, nat)>) -> nat {
    match position {
        Some((s, i)) => s.spec_offset(t) + s.spec_kind().spec_span(
            if i < s.spec_points(t) {
                i
            } else {
                s.spec_points(t)
            },
        ),
        None => spec_expected_accumulator_bytes(t),
    }
}

/// A smaller power has no more points in any section.
pub proof fn lemma_points_monotonic(t: nat, c: nat, s: Section)
    requires
        t <= c,
    ensures
        1 <= s.spec_points(t) <= s.spec_points(c),
{
    lemma_pow2_pos(t);
    if t < c {
        lemma_pow2_strictly_increases(t, c);
    }
}

/// What one step adds to the output: the width of the point where the
/// point is kept, nothing where it is dropped.
pub proof fn lemma_retained_before_step(c: nat, t: nat, s: Section, i: nat)
    requires
        t <= c,
        valid_position(c, s, i),
    ensures
        retained_before(t, next_position(c, s, i)) == retained_before(t, Some((s, i))) + (if retains(
            t,
            s,
            i,
        ) {
            s.spec_kind().spec_width()
        } else {
            0
        }),
{
    lemma_points_monotonic(t, c, s);
}

/// The state of a reduction from one power to a smaller one.
#[derive(Debug)]
pub struct Reducer {
    cursor: Cursor,
    target: usize,
    written: u64,
}

impl Reducer {
    /// The power of the input.
    pub closed spec fn spec_current_power(self) -> nat {
        self.cursor.spec_power()
    }

    /// The power of the output.
    pub closed spec fn spec_target_power(self) -> nat {
        self.target as nat
    }

    /// The next point of the input, or `None` after the last.
    pub closed spec fn spec_position(self) -> Option<(Section, nat)> {
        self.cursor.spec_position()
    }

    /// The reducer stands at a point of its input or after the last, and
    /// its target is no larger than the power of the input.
    pub closed spec fn wf(self) -> bool {
        &&& self.cursor.wf()
        &&& self.target as nat <= self.cursor.spec_power() <= MAX_POWER
        &&& self.written == retained_before(self.target as nat, self.cursor.spec_position())
    }

    /// What a well-formed reducer stands on: a point of its input or the
    /// end, with a target no larger than the power of the input.
    pub proof fn lemma_wf(self)
        requires
            self.wf(),
        ensures
            self.spec_target_power() <= self.spec_current_power() <= MAX_POWER,
            match self.spec_position() {
                Some((s, i)) => valid_position(self.spec_current_power(), s, i),
                None => true,
            },
    {
        self.cursor.lemma_wf();
    }

    /// Number of bytes of the input that lie before the next point.
    pub open spec fn spec_bytes_read(self) -> nat {
        position_offset(self.spec_current_power(), self.spec_position())
    }

    /// Number of bytes that the steps taken so far have put out.
    pub open spec fn spec_bytes_written(self) -> nat {
        retained_before(self.spec_target_power(), self.spec_position())
    }

    /// A reduction from `current_power` to `target_power`, at the first
    /// point of the input. A target above the power of the input is
    /// refused.
    pub fn new(current_power: usize, target_power: usize) -> (r: Result<Reducer, ReduceError>)
        requires
            current_power <= MAX_POWER,
        ensures
            match r {
                Ok(reducer) => {
                    &&& target_power <= current_power
                    &&& reducer.wf()
                    &&& reducer.spec_current_power() == current_power
                    &&& reducer.spec_target_power() == target_power
                    &&& reducer.spec_position() == Some((Section::TauPowersG1, 0nat))
                },
                Err(e) => e == ReduceError::TargetTooLarge && target_power > current_power,
            },
    {
        if target_power > current_power {
            return Err(ReduceError::TargetTooLarge);
        }
        Ok(Reducer { cursor: Cursor::new(current_power), target: target_power, written: 0 })
    }

    /// The power of the input.
    pub fn current_power(&self) -> (p: usize)
        ensures
            p == self.spec_current_power(),
            self.wf() ==> p <= MAX_POWER,
    {
        self.cursor.power()
    }

    /// The power of the output.
    pub fn target_power(&self) -> (p: usize)
        ensures
            p == self.spec_target_power(),
            self.wf() ==> p <= self.spec_current_power(),
    {
        self.target
    }

    /// The next point of the input, or `None` after the last.
    pub fn position(&self) -> (r: Option<(Section, u64)>)
        ensures
            match r {
                Some((s, i)) => self.spec_position() == Some((s, i as nat)),
                None => self.spec_position() is None,
            },
    {
        self.cursor.position()
    }

    /// Number of bytes of the input that lie before the next point.
    pub fn bytes_read(&self) -> (n: u64)
        requires
            self.wf(),
        ensures
            n == self.spec_bytes_read(),
    {
        self.cursor.offset()
    }

    /// Number of bytes that the steps taken so far have put out.
    pub fn bytes_written(&self) -> (n: u64)
        requires
            self.wf(),
        ensures
            n == self.spec_bytes_written(),
    {
        self.written
    }

    /// What is to be done with the next point of the input: copied while
    /// the section of the output still has room, dropped after that.
    pub fn next_action(&self) -> (a: Action)
        requires
            self.wf(),
        ensures
            a == action_at(self.spec_target_power(), self.spec_position()),
    {
        match self.cursor.position() {
            Some((section, index)) => {
                if index < section.points(self.target) {
                    Action::Copy(section.kind())
                } else {
                    Action::Skip(section.kind())
                }
            },
            None => Action::Finish,
        }
    }

    /// Records that the next point of the input has been read, and written
    /// where it was to be copied.
    pub fn advance(&mut self)
        requires
            old(self).wf(),
            old(self).spec_position() is Some,
        ensures
            final(self).wf(),
            final(self).spec_current_power() == old(self).spec_current_power(),
            final(self).spec_target_power() == old(self).spec_target_power(),
            match old(self).spec_position() {
                Some((s, i)) => final(self).spec_position() == next_position(
                    old(self).spec_current_power(),
                    s,
                    i,
                ),
                None => false,
            },
    {
        match self.cursor.position() {
            Some((section, index)) => {
                proof {
                    let c = self.cursor.spec_power();
                    let t = self.target as nat;
                    self.cursor.lemma_wf();
                    lemma_points_monotonic(t, c, section);
                    lemma_retained_before_step(c, t, section, index as nat);
                    lemma_next_position_offset(t, section, 0);
                    lemma_tau_length_bounds(t);
                    if retains(t, section, index as nat) {
                        lemma_next_position_offset(t, section, index as nat);
                    }
                }
                if index < section.points(self.target) {
                    self.written = self.written + section.kind().width() as u64;
                }
            },
            None => {},
        }
        self.cursor.advance();
    }
}

} // verus!
