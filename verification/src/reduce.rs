//! What a reduction makes of the bytes of an accumulator, and a reduction
//! of an accumulator that is held in memory.

use crate::cursor::{
    lemma_next_position_offset, next_position, point_bytes, point_offset, valid_position,
};
use crate::detect::{detect_power_from_file_size, spec_file_power};
use crate::error::ReduceError;
use crate::layout::{
    spec_expected_accumulator_bytes, PointKind, Section, HEADER_BYTES, MAX_POWER,
};
use crate::reducer::{lemma_points_monotonic, retains, Action, Reducer};
use vstd::prelude::*;
use vstd::slice::slice_subrange;

verus! {

/// What a reduction from power `c` to power `t` keeps of section `s`: its
/// leading bytes, as many as the section has at power `t`.
pub open spec fn retained_section(body: Seq<u8>, c: nat, t: nat, s: Section) -> Seq<u8> {
    body.subrange(s.spec_offset(c) as int, (s.spec_offset(c) + s.spec_bytes(t)) as int)
}

/// The accumulator of power `t` that a reduction makes of an accumulator
/// `body` of power `c`: what it keeps of each section, in the order of the
/// sections.
pub open spec fn reduced_accumulator(body: Seq<u8>, c: nat, t: nat) -> Seq<u8> {
    retained_section(body, c, t, Section::TauPowersG1) + retained_section(
        body,
        c,
        t,
        Section::TauPowersG2,
    ) + retained_section(body, c, t, Section::AlphaTauPowersG1) + retained_section(
        body,
        c,
        t,
        Section::BetaTauPowersG1,
    ) + retained_section(body, c, t, Section::BetaG2)
}

/// The file that a reduction makes of a file of power `c`: the header
/// unchanged, then the reduced accumulator.
pub open spec fn reduced_file(file: Seq<u8>, c: nat, t: nat) -> Seq<u8> {
    file.subrange(0, HEADER_BYTES as int) + reduced_accumulator(
        file.subrange(HEADER_BYTES as int, file.len() as int),
        c,
        t,
    )
}

/// What a reduction has kept of the sections before `s`.
pub open spec fn retained_sections_before(body: Seq<u8>, c: nat, t: nat, s: Section) -> Seq<u8> {
    match s {
        Section::TauPowersG1 => Seq::empty(),
        Section::TauPowersG2 => retained_section(body, c, t, Section::TauPowersG1),
        Section::AlphaTauPowersG1 => retained_section(body, c, t, Section::TauPowersG1)
            + retained_section(body, c, t, Section::TauPowersG2),
        Section::BetaTauPowersG1 => retained_section(body, c, t, Section::TauPowersG1)
            + retained_section(body, c, t, Section::TauPowersG2) + retained_section(
            body,
            c,
            t,
            Section::AlphaTauPowersG1,
        ),
        Section::BetaG2 => retained_section(body, c, t, Section::TauPowersG1) + retained_section(
            body,
            c,
            t,
            Section::TauPowersG2,
        ) + retained_section(body, c, t, Section::AlphaTauPowersG1) + retained_section(
            body,
            c,
            t,
            Section::BetaTauPowersG1,
        ),
    }
}

/// The output of a reduction that has reached a position of the input:
/// what it has kept of the sections before, then of the section itself the
/// points before the position, as far as they are kept.
pub open spec fn reduced_before(
    body: Seq<u8>,
    c: nat,
    t: nat,
    position: Option<(Section, nat)>,
) -> Seq<u8> {
    match position {
        Some((s, i)) => retained_sections_before(body, c, t, s) + body.subrange(
            s.spec_offset(c) as int,
            (s.spec_offset(c) + s.spec_kind().spec_span(
                if i < s.spec_points(t) {
                    i
                } else {
                    s.spec_points(t)
                },
            )) as int,
        ),
        None => reduced_accumulator(body, c, t),
    }
}

/// What has been kept before a section, and what is kept of the section,
/// make up what has been kept before the section that follows; after the
/// last section they make up the reduced accumulator.
pub proof fn lemma_retained_sections_chain(body: Seq<u8>, c: nat, t: nat, s: Section)
    ensures
        retained_sections_before(body, c, t, s) + retained_section(body, c, t, s) == match s.spec_next() {
            Some(following) => retained_sections_before(body, c, t, following),
            None => reduced_accumulator(body, c, t),
        },
{
    let joined = retained_sections_before(body, c, t, s) + retained_section(body, c, t, s);
    match s.spec_next() {
        Some(following) => {
            assert(joined =~= retained_sections_before(body, c, t, following));
        },
        None => {
            assert(joined =~= reduced_accumulator(body, c, t));
        },
    }
}

/// The leading `k + 1` points of a section are its leading `k` points and
/// point `k`.
proof fn lemma_leading_points_extend(body: Seq<u8>, c: nat, s: Section, k: nat)
    requires
        point_offset(c, s, k) + s.spec_kind().spec_width() <= body.len(),
    ensures
        body.subrange(
            s.spec_offset(c) as int,
            (s.spec_offset(c) + s.spec_kind().spec_span(k + 1)) as int,
        ) == body.subrange(
            s.spec_offset(c) as int,
            (s.spec_offset(c) + s.spec_kind().spec_span(k)) as int,
        ) + point_bytes(body, c, s, k),
{
    let start = s.spec_offset(c) as int;
    let middle = start + s.spec_kind().spec_span(k);
    let end = start + s.spec_kind().spec_span(k + 1);
    assert(middle == point_offset(c, s, k));
    assert(end == middle + s.spec_kind().spec_width());
    assert(body.subrange(start, end) =~= body.subrange(start, middle) + body.subrange(
        middle,
        end,
    ));
}

/// One step of a reduction appends the point that it read where the point
/// is kept, and leaves the output as it is where the point is dropped.
pub proof fn lemma_reduced_before_step(body: Seq<u8>, c: nat, t: nat, s: Section, i: nat)
    requires
        t <= c,
        valid_position(c, s, i),
        point_offset(c, s, i) + s.spec_kind().spec_width() <= body.len(),
    ensures
        reduced_before(body, c, t, next_position(c, s, i)) == if retains(t, s, i) {
            reduced_before(body, c, t, Some((s, i))) + point_bytes(body, c, s, i)
        } else {
            reduced_before(body, c, t, Some((s, i)))
        },
{
    lemma_points_monotonic(t, c, s);
    let kept_before = retained_sections_before(body, c, t, s);
    let start = s.spec_offset(c) as int;
    let kind = s.spec_kind();
    let limit = s.spec_points(t);
    let before = reduced_before(body, c, t, Some((s, i)));
    let after = reduced_before(body, c, t, next_position(c, s, i));
    // What the output holds of section `s` once point `i` has been passed.
    let passed: nat = if i + 1 < limit {
        i + 1
    } else {
        limit
    };
    let of_section = body.subrange(start, start + kind.spec_span(passed));
    assert(after == kept_before + of_section) by {
        if i + 1 < s.spec_points(c) {
        } else {
            assert(passed == limit);
            assert(of_section == retained_section(body, c, t, s));
            lemma_retained_sections_chain(body, c, t, s);
            match s.spec_next() {
                Some(following) => {
                    let nothing = body.subrange(
                        following.spec_offset(c) as int,
                        (following.spec_offset(c) + following.spec_kind().spec_span(0)) as int,
                    );
                    lemma_points_monotonic(t, c, following);
                    assert(following.spec_kind().spec_span(0) == 0);
                    assert(nothing =~= Seq::<u8>::empty());
                    assert(after == retained_sections_before(body, c, t, following) + nothing);
                    assert(after =~= retained_sections_before(body, c, t, following));
                },
                None => {},
            }
        }
    }
    if retains(t, s, i) {
        assert(passed == i + 1);
        lemma_leading_points_extend(body, c, s, i);
        assert(after =~= before + point_bytes(body, c, s, i));
    } else {
        assert(passed == limit);
    }
}

/// At the first point nothing has been put out.
pub proof fn lemma_reduced_before_start(body: Seq<u8>, c: nat, t: nat)
    ensures
        reduced_before(body, c, t, Some((Section::TauPowersG1, 0nat))) == Seq::<u8>::empty(),
{
    assert(reduced_before(body, c, t, Some((Section::TauPowersG1, 0nat))) =~= Seq::<u8>::empty());
}

/// A section at a smaller power fits inside the same section at a larger
/// one, which fits inside the accumulator.
pub proof fn lemma_section_fits(c: nat, t: nat, s: Section)
    requires
        t <= c,
    ensures
        s.spec_bytes(t) <= s.spec_bytes(c),
        s.spec_offset(c) + s.spec_bytes(c) <= spec_expected_accumulator_bytes(c),
        s.spec_offset(t) + s.spec_bytes(t) <= spec_expected_accumulator_bytes(t),
{
    lemma_points_monotonic(t, c, Section::TauPowersG1);
    lemma_points_monotonic(t, c, Section::TauPowersG2);
}

/// The reduced accumulator has the length of an accumulator of the target
/// power.
pub proof fn lemma_reduced_accumulator_length(body: Seq<u8>, c: nat, t: nat)
    requires
        t <= c,
        body.len() >= spec_expected_accumulator_bytes(c),
    ensures
        reduced_accumulator(body, c, t).len() == spec_expected_accumulator_bytes(t),
{
    lemma_section_fits(c, t, Section::TauPowersG1);
    lemma_section_fits(c, t, Section::TauPowersG2);
    lemma_section_fits(c, t, Section::AlphaTauPowersG1);
    lemma_section_fits(c, t, Section::BetaTauPowersG1);
    lemma_section_fits(c, t, Section::BetaG2);
}

/// The reduced file is a header and an accumulator of the target power
/// long, and its header is that of the input.
pub proof fn lemma_reduced_file_length_and_header(file: Seq<u8>, c: nat, t: nat)
    requires
        t <= c,
        file.len() >= HEADER_BYTES + spec_expected_accumulator_bytes(c),
    ensures
        reduced_file(file, c, t).len() == HEADER_BYTES + spec_expected_accumulator_bytes(t),
        reduced_file(file, c, t).subrange(0, HEADER_BYTES as int) == file.subrange(
            0,
            HEADER_BYTES as int,
        ),
{
    let body = file.subrange(HEADER_BYTES as int, file.len() as int);
    lemma_reduced_accumulator_length(body, c, t);
    assert(reduced_file(file, c, t).subrange(0, HEADER_BYTES as int) =~= file.subrange(
        0,
        HEADER_BYTES as int,
    ));
}

/// A stretch of the second of two joined sequences, seen from the joined
/// sequence.
proof fn lemma_subrange_of_joined(first: Seq<u8>, second: Seq<u8>, from: int, to: int)
    requires
        0 <= from <= to <= second.len(),
    ensures
        (first + second).subrange(first.len() + from, first.len() + to) == second.subrange(
            from,
            to,
        ),
{
    assert((first + second).subrange(first.len() + from, first.len() + to) =~= second.subrange(
        from,
        to,
    ));
}

/// A stretch of what follows the first `start` bytes, seen from the whole.
proof fn lemma_subrange_of_rest(whole: Seq<u8>, start: int, from: int, to: int)
    requires
        0 <= start,
        0 <= from <= to,
        start + to <= whole.len(),
    ensures
        whole.subrange(start, whole.len() as int).subrange(from, to) == whole.subrange(
            start + from,
            start + to,
        ),
{
    assert(whole.subrange(start, whole.len() as int).subrange(from, to) =~= whole.subrange(
        start + from,
        start + to,
    ));
}

/// A stretch of a stretch, seen from the whole.
proof fn lemma_subrange_of_subrange(whole: Seq<u8>, start: int, end: int, from: int, to: int)
    requires
        0 <= start,
        0 <= from <= to,
        start + to <= end <= whole.len(),
    ensures
        whole.subrange(start, end).subrange(from, to) == whole.subrange(start + from, start + to),
{
    assert(whole.subrange(start, end).subrange(from, to) =~= whole.subrange(
        start + from,
        start + to,
    ));
}

/// Each of five joined sequences stands in the joined sequence after the
/// ones before it.
proof fn lemma_parts_of_five(
    r0: Seq<u8>,
    r1: Seq<u8>,
    r2: Seq<u8>,
    r3: Seq<u8>,
    r4: Seq<u8>,
)
    ensures
        ({
            let joined = r0 + r1 + r2 + r3 + r4;
            let l0 = r0.len() as int;
            let l1 = l0 + r1.len();
            let l2 = l1 + r2.len();
            let l3 = l2 + r3.len();
            let l4 = l3 + r4.len();
            &&& joined.len() == l4
            &&& joined.subrange(0, l0) == r0
            &&& joined.subrange(l0, l1) == r1
            &&& joined.subrange(l1, l2) == r2
            &&& joined.subrange(l2, l3) == r3
            &&& joined.subrange(l3, l4) == r4
        }),
{
    let joined = r0 + r1 + r2 + r3 + r4;
    let l0 = r0.len() as int;
    let l1 = l0 + r1.len();
    let l2 = l1 + r2.len();
    let l3 = l2 + r3.len();
    let l4 = l3 + r4.len();
    assert(joined.subrange(0, l0) =~= r0);
    assert(joined.subrange(l0, l1) =~= r1);
    assert(joined.subrange(l1, l2) =~= r2);
    assert(joined.subrange(l2, l3) =~= r3);
    assert(joined.subrange(l3, l4) =~= r4);
}

/// What a reduction keeps of a section stands in the reduced accumulator
/// where the section lies in an accumulator of the target power.
pub proof fn lemma_reduced_section(body: Seq<u8>, c: nat, t: nat, s: Section)
    requires
        t <= c,
        body.len() >= spec_expected_accumulator_bytes(c),
    ensures
        s.spec_offset(t) + s.spec_bytes(t) <= reduced_accumulator(body, c, t).len(),
        reduced_accumulator(body, c, t).subrange(
            s.spec_offset(t) as int,
            (s.spec_offset(t) + s.spec_bytes(t)) as int,
        ) == retained_section(body, c, t, s),
{
    lemma_section_fits(c, t, Section::TauPowersG1);
    lemma_section_fits(c, t, Section::TauPowersG2);
    lemma_section_fits(c, t, Section::AlphaTauPowersG1);
    lemma_section_fits(c, t, Section::BetaTauPowersG1);
    lemma_section_fits(c, t, Section::BetaG2);
    let r0 = retained_section(body, c, t, Section::TauPowersG1);
    let r1 = retained_section(body, c, t, Section::TauPowersG2);
    let r2 = retained_section(body, c, t, Section::AlphaTauPowersG1);
    let r3 = retained_section(body, c, t, Section::BetaTauPowersG1);
    let r4 = retained_section(body, c, t, Section::BetaG2);
    assert(r0.len() == Section::TauPowersG1.spec_bytes(t));
    assert(r1.len() == Section::TauPowersG2.spec_bytes(t));
    assert(r2.len() == Section::AlphaTauPowersG1.spec_bytes(t));
    assert(r3.len() == Section::BetaTauPowersG1.spec_bytes(t));
    assert(r4.len() == Section::BetaG2.spec_bytes(t));
    lemma_parts_of_five(r0, r1, r2, r3, r4);
}

/// Every point of the reduced accumulator is the point of the same section
/// and index of the input: a reduction keeps the leading points of each
/// section, in their order. With index 0 this is the first point of each
/// section.
pub proof fn lemma_reduction_preserves_points(body: Seq<u8>, c: nat, t: nat, s: Section, i: nat)
    requires
        t <= c,
        body.len() >= spec_expected_accumulator_bytes(c),
        valid_position(t, s, i),
    ensures
        point_bytes(reduced_accumulator(body, c, t), t, s, i) == point_bytes(body, c, s, i),
{
    let reduced = reduced_accumulator(body, c, t);
    let width = s.spec_kind().spec_width() as int;
    let within = s.spec_kind().spec_span(i) as int;
    let length = s.spec_bytes(t) as int;
    let from = s.spec_offset(c) as int;
    let to = s.spec_offset(t) as int;
    assert(within + width <= length) by {
        lemma_next_position_offset(t, s, i);
    }
    lemma_section_fits(c, t, s);
    lemma_reduced_section(body, c, t, s);
    // The point inside what is kept of its section, seen from the output
    // and from the input.
    lemma_subrange_of_subrange(reduced, to, to + length, within, within + width);
    lemma_subrange_of_subrange(body, from, from + length, within, within + width);
}

/// Every point of the accumulator of a reduced file is the point of the
/// same section and index of the accumulator of the input file.
pub proof fn lemma_file_reduction_preserves_points(
    file: Seq<u8>,
    c: nat,
    t: nat,
    s: Section,
    i: nat,
)
    requires
        t <= c,
        file.len() >= HEADER_BYTES + spec_expected_accumulator_bytes(c),
        valid_position(t, s, i),
    ensures
        reduced_file(file, c, t).subrange(
            HEADER_BYTES + point_offset(t, s, i),
            HEADER_BYTES + point_offset(t, s, i) + s.spec_kind().spec_width(),
        ) == file.subrange(
            HEADER_BYTES + point_offset(c, s, i),
            HEADER_BYTES + point_offset(c, s, i) + s.spec_kind().spec_width(),
        ),
{
    let header = file.subrange(0, HEADER_BYTES as int);
    let body = file.subrange(HEADER_BYTES as int, file.len() as int);
    let reduced = reduced_accumulator(body, c, t);
    let width = s.spec_kind().spec_width() as int;
    let from = point_offset(c, s, i) as int;
    let to = point_offset(t, s, i) as int;
    lemma_points_monotonic(t, c, s);
    assert(to + width <= reduced.len()) by {
        lemma_reduced_accumulator_length(body, c, t);
        lemma_next_position_offset(t, s, i);
    }
    assert(from + width <= body.len()) by {
        lemma_next_position_offset(c, s, i);
    }
    lemma_reduction_preserves_points(body, c, t, s, i);
    lemma_subrange_of_joined(header, reduced, to, to + width);
    lemma_subrange_of_rest(file, HEADER_BYTES as int, from, from + width);
}

/// A reduction to the power that the accumulator has already changes
/// nothing.
pub proof fn lemma_reduction_to_same_power(body: Seq<u8>, p: nat)
    requires
        body.len() == spec_expected_accumulator_bytes(p),
    ensures
        reduced_accumulator(body, p, p) == body,
{
    assert(reduced_accumulator(body, p, p) =~= body);
}

/// A reduction of a file to the power that it has already changes nothing.
pub proof fn lemma_file_reduction_to_same_power(file: Seq<u8>, p: nat)
    requires
        file.len() == HEADER_BYTES + spec_expected_accumulator_bytes(p),
    ensures
        reduced_file(file, p, p) == file,
{
    let body = file.subrange(HEADER_BYTES as int, file.len() as int);
    lemma_reduction_to_same_power(body, p);
    assert(reduced_file(file, p, p) =~= file);
}

/// Appends bytes to the output.
fn append_bytes(output: &mut Vec<u8>, point: &[u8])
    ensures
        final(output)@ == old(output)@ + point@,
{
    output.extend_from_slice(point);
    assert(output@ =~= old(output)@ + point@);
}

/// Reduces an accumulator of power `current_power` that is held in memory
/// to power `target_power`, point by point, as a streaming reduction does.
/// Bytes after the accumulator are not read.
pub fn reduce_accumulator(body: &[u8], current_power: usize, target_power: usize) -> (r: Result<
    Vec<u8>,
    ReduceError,
>)
    requires
        current_power <= MAX_POWER,
    ensures
        match r {
            Ok(output) => {
                &&& target_power <= current_power
                &&& body@.len() >= spec_expected_accumulator_bytes(current_power as nat)
                &&& output@ == reduced_accumulator(
                    body@,
                    current_power as nat,
                    target_power as nat,
                )
            },
            Err(ReduceError::TargetTooLarge) => target_power > current_power,
            Err(ReduceError::TruncatedInput) => {
                &&& target_power <= current_power
                &&& body@.len() < spec_expected_accumulator_bytes(current_power as nat)
            },
            Err(_) => false,
        },
{
    let mut reducer: Reducer = match Reducer::new(current_power, target_power) {
        Ok(reducer) => reducer,
        Err(_) => {
            return Err(ReduceError::TargetTooLarge);
        },
    };
    let mut output: Vec<u8> = Vec::new();
    let length: usize = body.len();
    proof {
        lemma_reduced_before_start(body@, current_power as nat, target_power as nat);
    }
    loop
        invariant
            reducer.wf(),
            reducer.spec_current_power() == current_power,
            reducer.spec_target_power() == target_power,
            target_power <= current_power <= MAX_POWER,
            length == body@.len(),
            reducer.spec_bytes_read() <= body@.len(),
            output@ == reduced_before(
                body@,
                current_power as nat,
                target_power as nat,
                reducer.spec_position(),
            ),
        decreases spec_expected_accumulator_bytes(current_power as nat) - reducer.spec_bytes_read(),
    {
        let action: Action = reducer.next_action();
        let kind: PointKind = match action {
            Action::Copy(kind) => kind,
            Action::Skip(kind) => kind,
            Action::Finish => {
                return Ok(output);
            },
        };
        let ghost (s, i) = reducer.spec_position().unwrap();
        proof {
            reducer.lemma_wf();
            lemma_next_position_offset(current_power as nat, s, i);
        }
        let start: u64 = reducer.bytes_read();
        let width: u64 = kind.width() as u64;
        if length as u64 - start < width {
            return Err(ReduceError::TruncatedInput);
        }
        proof {
            lemma_reduced_before_step(body@, current_power as nat, target_power as nat, s, i);
        }
        if let Action::Copy(_) = action {
            let point: &[u8] = slice_subrange(body, start as usize, (start + width) as usize);
            append_bytes(&mut output, point);
        }
        reducer.advance();
    }
}

/// Reduces a ceremony file that is held in memory to power `target_power`:
/// finds the power of the file from its length, refuses a larger target,
/// copies the header and reduces the accumulator.
pub fn reduce_challenge(file: &[u8], target_power: usize) -> (r: Result<Vec<u8>, ReduceError>)
    ensures
        match r {
            Ok(output) => match spec_file_power(file@.len()) {
                Some(c) => target_power <= c && output@ == reduced_file(
                    file@,
                    c,
                    target_power as nat,
                ),
                None => false,
            },
            Err(ReduceError::UnsupportedSize) => spec_file_power(file@.len()) is None,
            Err(ReduceError::TargetTooLarge) => match spec_file_power(file@.len()) {
                Some(c) => target_power > c,
                None => false,
            },
            Err(_) => false,
        },
{
    let length: usize = file.len();
    let current_power: usize = match detect_power_from_file_size(length as u64) {
        Ok(power) => power,
        Err(_) => {
            return Err(ReduceError::UnsupportedSize);
        },
    };
    if target_power > current_power {
        return Err(ReduceError::TargetTooLarge);
    }
    let header: &[u8] = slice_subrange(file, 0, HEADER_BYTES);
    let body: &[u8] = slice_subrange(file, HEADER_BYTES, length);
    let mut output: Vec<u8> = Vec::new();
    append_bytes(&mut output, header);
    match reduce_accumulator(body, current_power, target_power) {
        Ok(reduced) => {
            append_bytes(&mut output, reduced.as_slice());
            Ok(output)
        },
        Err(e) => Err(e),
    }
}

} // verus!
