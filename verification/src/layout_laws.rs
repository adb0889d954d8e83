//! What holds of every partition.

use vstd::prelude::*;
use crate::constraint::{Constraint, Direction, Flex};
use crate::layout::{
    axis_end,
    axis_extent,
    axis_length,
    axis_start,
    partition_of,
    same_across,
    segment_lengths_of,
};
use crate::length_laws::{
    law_equal_fills_share_evenly,
    law_short_source_served_by_firmness,
    lemma_lengths_total,
};
use crate::placement::{available, gaps, lead, offset};
use crate::placement_laws::{lemma_segment_within, lemma_segments_in_order};
use crate::rect::Rect;
use crate::sizing::{
    fill_flags,
    fill_weights,
    grow_weight,
    grow_weights,
    lemma_request_not_negative,
    length,
    requests,
};
use crate::sums::{lemma_entry_at_most_sum, prefix_sum, total};

verus! {

/// Each rectangle of a partition is its segment: as long as the segment,
/// and as far from the start of the source as the segment's offset.
pub proof fn lemma_partition_segments(
    source: Rect,
    direction: Direction,
    cs: Seq<Constraint>,
    spacing: u16,
    flex: Flex,
    i: int,
)
    requires
        0 <= i < cs.len(),
    ensures
        partition_of(source, direction, cs, spacing as int, flex).len() == cs.len(),
        axis_extent(partition_of(source, direction, cs, spacing as int, flex)[i], direction)
            == segment_lengths_of(source, direction, cs, spacing as int)[i],
        axis_start(partition_of(source, direction, cs, spacing as int, flex)[i], direction)
            == axis_start(source, direction) + offset(
            segment_lengths_of(source, direction, cs, spacing as int),
            axis_length(source, direction),
            spacing as int,
            flex,
            i,
        ),
        same_across(
            partition_of(source, direction, cs, spacing as int, flex)[i],
            source,
            direction,
        ),
        0 <= segment_lengths_of(source, direction, cs, spacing as int)[i] <= axis_length(
            source,
            direction,
        ),
{
    let len = axis_length(source, direction);
    let n = cs.len() as int;
    let avail = available(len, spacing as int, n);
    let lens = segment_lengths_of(source, direction, cs, spacing as int);
    lemma_lengths_total(cs, len, avail);
    lemma_entry_at_most_sum(lens, i, n);
    lemma_segment_within(lens, len, spacing as int, flex, i);
}

/// The rectangles of a partition do not overlap and lie within the source.
///
/// Along the axis they follow one another in the order of the constraints,
/// each ending before the next starts, and none reaches past the source.
/// Across the axis each spans what the source spans. Where the source has
/// room for the gaps, consecutive rectangles lie at least `spacing` cells
/// apart. This holds of every list of constraints, also of one that asks
/// for more than the source holds.
pub proof fn law_segments_apart_within_source(
    source: Rect,
    direction: Direction,
    cs: Seq<Constraint>,
    spacing: u16,
    flex: Flex,
)
    ensures
        ({
            let p = partition_of(source, direction, cs, spacing as int, flex);
            &&& p.len() == cs.len()
            &&& forall|i: int|
                0 <= i < p.len() ==> same_across(#[trigger] p[i], source, direction) && axis_start(
                    source,
                    direction,
                ) <= axis_start(p[i], direction) && axis_end(p[i], direction) <= axis_start(
                    source,
                    direction,
                ) + axis_length(source, direction)
            &&& forall|i: int, j: int|
                0 <= i < j < p.len() ==> axis_end(#[trigger] p[i], direction) <= axis_start(
                    #[trigger] p[j],
                    direction,
                )
            &&& gaps(spacing as int, cs.len() as int) <= axis_length(source, direction)
                ==> forall|i: int, j: int|
                0 <= i < j < p.len() ==> axis_end(#[trigger] p[i], direction) + spacing
                    <= axis_start(#[trigger] p[j], direction)
            &&& forall|i: int, j: int|
                0 <= i < p.len() && 0 <= j < p.len() && i != j ==> (#[trigger] p[i]).cells().disjoint(
                    (#[trigger] p[j]).cells(),
                )
            &&& source.in_bounds() ==> forall|i: int|
                0 <= i < p.len() ==> (#[trigger] p[i]).within(source) && p[i].in_bounds()
        }),
{
    let p = partition_of(source, direction, cs, spacing as int, flex);
    let len = axis_length(source, direction);
    let n = cs.len() as int;
    let avail = available(len, spacing as int, n);
    let lens = segment_lengths_of(source, direction, cs, spacing as int);
    lemma_lengths_total(cs, len, avail);
    assert forall|i: int| 0 <= i < n implies same_across(#[trigger] p[i], source, direction)
        && axis_start(source, direction) <= axis_start(p[i], direction) && axis_end(
        p[i],
        direction,
    ) <= axis_start(source, direction) + axis_length(source, direction) by {
        lemma_partition_segments(source, direction, cs, spacing, flex, i);
        lemma_segment_within(lens, len, spacing as int, flex, i);
    }
    assert forall|i: int, j: int| 0 <= i < j < n implies axis_end(#[trigger] p[i], direction)
        <= axis_start(#[trigger] p[j], direction) && (gaps(spacing as int, n) <= len ==> axis_end(
        p[i],
        direction,
    ) + spacing <= axis_start(p[j], direction)) by {
        lemma_partition_segments(source, direction, cs, spacing, flex, i);
        lemma_partition_segments(source, direction, cs, spacing, flex, j);
        lemma_segments_in_order(lens, len, spacing as int, flex, i, j);
    }
    assert forall|i: int, j: int| 0 <= i < n && 0 <= j < n && i != j implies (#[trigger] p[i]).cells().disjoint(
        (#[trigger] p[j]).cells(),
    ) by {
        assert forall|c: (int, int)| !(p[i].cells().contains(c) && p[j].cells().contains(c)) by {
            if i < j {
                assert(axis_end(p[i], direction) <= axis_start(p[j], direction));
            } else {
                assert(axis_end(p[j], direction) <= axis_start(p[i], direction));
            }
        }
    }
    if source.in_bounds() {
        assert forall|i: int| 0 <= i < n implies (#[trigger] p[i]).within(source)
            && p[i].in_bounds() by {
            assert(same_across(p[i], source, direction));
        }
    }
}

/// Segments that all fill with one weight cut the source evenly.
///
/// With `n` such segments and `a` cells left beside the gaps, each
/// rectangle is `a / n` cells long, rounded down, and the first `a % n` of
/// them one cell longer: so each length is the quotient rounded down or
/// rounded up, and together they come to `a`. Where the source has room for
/// the gaps, `a` is its length less `n - 1` spacings, and without spacing it
/// is the length of the source itself.
pub proof fn law_equal_fills_cut_evenly(
    source: Rect,
    direction: Direction,
    cs: Seq<Constraint>,
    weight: u16,
    spacing: u16,
    flex: Flex,
)
    requires
        cs.len() >= 1,
        forall|i: int| 0 <= i < cs.len() ==> cs[i] == Constraint::Fill(weight),
    ensures
        ({
            let p = partition_of(source, direction, cs, spacing as int, flex);
            let n = cs.len() as int;
            let len = axis_length(source, direction);
            let a = available(len, spacing as int, n);
            &&& forall|i: int|
                0 <= i < n ==> axis_extent(#[trigger] p[i], direction) == a / n + if i < a % n {
                    1int
                } else {
                    0int
                }
            &&& total(segment_lengths_of(source, direction, cs, spacing as int)) == a
            &&& spacing * (n - 1) <= len ==> a == len - spacing * (n - 1)
            &&& spacing == 0 ==> a == len
        }),
{
    let p = partition_of(source, direction, cs, spacing as int, flex);
    let n = cs.len() as int;
    let len = axis_length(source, direction);
    let a = available(len, spacing as int, n);
    law_equal_fills_share_evenly(cs, weight, len, a);
    assert forall|i: int| 0 <= i < n implies axis_extent(#[trigger] p[i], direction) == a / n
        + if i < a % n {
        1int
    } else {
        0int
    } by {
        lemma_partition_segments(source, direction, cs, spacing, flex, i);
        assert(segment_lengths_of(source, direction, cs, spacing as int)[i] == length(
            cs,
            len,
            a,
            i,
        ));
    }
    if spacing == 0 || n == 1 {
        assert(spacing * (n - 1) == 0) by (nonlinear_arith)
            requires
                spacing == 0 || n == 1,
        ;
    }
}

/// A single segment that is centred has the same slack on both sides, or
/// one cell more behind it than before it.
pub proof fn law_single_segment_centred(
    source: Rect,
    direction: Direction,
    c: Constraint,
    spacing: u16,
)
    ensures
        ({
            let r = partition_of(source, direction, seq![c], spacing as int, Flex::Center)[0];
            let before = axis_start(r, direction) - axis_start(source, direction);
            let after = axis_start(source, direction) + axis_length(source, direction) - axis_end(
                r,
                direction,
            );
            0 <= before <= after <= before + 1
        }),
{
    let cs = seq![c];
    let len = axis_length(source, direction);
    let lens = segment_lengths_of(source, direction, cs, spacing as int);
    lemma_partition_segments(source, direction, cs, spacing, Flex::Center, 0);
    lemma_lengths_total(cs, len, available(len, spacing as int, 1));
    lemma_segment_within(lens, len, spacing as int, Flex::Center, 0);
    assert(total(lens) == lens[0]) by {
        reveal_with_fuel(prefix_sum, 2);
    }
}

/// The length of the one segment of a partition under a single constraint:
/// all of the source where the constraint grows, else what it asks for as
/// far as the source reaches.
pub open spec fn lone_length(c: Constraint, len: int) -> int {
    if c is Fill || c is Min || c.request(len) > len {
        len
    } else {
        c.request(len)
    }
}

/// A partition under a single constraint: the segment is as long as
/// `lone_length` says, and the flex policy alone places it.
pub proof fn lemma_lone_segment(
    source: Rect,
    direction: Direction,
    c: Constraint,
    spacing: u16,
    flex: Flex,
)
    ensures
        ({
            let r = partition_of(source, direction, seq![c], spacing as int, flex)[0];
            let len = axis_length(source, direction);
            &&& same_across(r, source, direction)
            &&& axis_extent(r, direction) == lone_length(c, len)
            &&& 0 <= lone_length(c, len) <= len
            &&& axis_start(r, direction) == axis_start(source, direction) + lead(
                flex,
                len - lone_length(c, len),
            )
        }),
{
    let cs = seq![c];
    let len = axis_length(source, direction);
    let lens = segment_lengths_of(source, direction, cs, spacing as int);
    lemma_partition_segments(source, direction, cs, spacing, flex, 0);
    lemma_lengths_total(cs, len, len);
    lemma_segment_within(lens, len, spacing as int, flex, 0);
    lemma_request_not_negative(c, len);
    reveal_with_fuel(prefix_sum, 2);
    assert(total(lens) == lens[0]);
    assert(total(requests(cs, len)) == c.request(len));
    assert(total(grow_weights(cs)) == grow_weight(cs, 0));
    assert(total(fill_flags(cs)) == fill_flags(cs)[0]);
    assert(total(fill_weights(cs)) == fill_weights(cs)[0]);
    if !(c is Fill || c is Min) && c.request(len) > len {
        law_short_source_served_by_firmness(cs, len, len);
    }
}

/// The same source, axis, constraints, spacing and flex policy yield the
/// same rectangles: whatever two calls of `partition` return on them is one
/// and the same sequence.
pub proof fn law_same_inputs_same_partition(
    source: Rect,
    direction: Direction,
    cs: Seq<Constraint>,
    spacing: u16,
    flex: Flex,
    first: Seq<Rect>,
    second: Seq<Rect>,
)
    requires
        first =~= partition_of(source, direction, cs, spacing as int, flex),
        second =~= partition_of(source, direction, cs, spacing as int, flex),
    ensures
        first == second,
{
}

} // verus!
