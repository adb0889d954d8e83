//! What holds of the places of the segments: they follow one another in
//! order and stay within the source.

use vstd::prelude::*;
use vstd::arithmetic::div_mod::{lemma_div_pos_is_pos, lemma_fundamental_div_mod, lemma_mod_bound};
use crate::constraint::Flex;
use crate::placement::{available, gaps, lead, offset, slack, strides, widening};
use crate::sizing::smaller;
use crate::sums::{
    lemma_entry_at_most_sum,
    lemma_prefix_sum_grows,
    non_negative,
    prefix_sum,
    total,
};

verus! {

/// The widening of every gap.
spec fn widenings(flex: Flex, n: int, room: int) -> Seq<int> {
    Seq::new(n as nat, |j: int| widening(flex, n, room, j))
}

/// No gap is narrowed, and the widenings of the first `i` gaps together are
/// `i` whole parts and one cell for each of the first gaps that the
/// remainder reaches.
proof fn lemma_widenings_upto(flex: Flex, n: int, room: int, i: int)
    requires
        0 <= room,
        0 <= i <= n,
    ensures
        non_negative(widenings(flex, n, room)),
        prefix_sum(widenings(flex, n, room), i) == if flex is SpaceBetween && n >= 2 {
            i * (room / (n - 1)) + smaller(i, room % (n - 1))
        } else {
            0
        },
    decreases i,
{
    if flex is SpaceBetween && n >= 2 {
        lemma_div_pos_is_pos(room, n - 1);
        lemma_mod_bound(room, n - 1);
        let q = room / (n - 1);
        if i > 0 {
            lemma_widenings_upto(flex, n, room, i - 1);
            assert(i * q == (i - 1) * q + q) by (nonlinear_arith);
        } else {
            assert(0 * q == 0) by (nonlinear_arith);
        }
    } else {
        if i > 0 {
            lemma_widenings_upto(flex, n, room, i - 1);
        }
    }
}

/// The slack that lies before segment `i`, at its head or in widened gaps,
/// is never more than there is.
proof fn lemma_slack_ahead(flex: Flex, n: int, room: int, i: int)
    requires
        0 <= room,
        0 <= i < n,
    ensures
        0 <= lead(flex, room),
        0 <= prefix_sum(widenings(flex, n, room), i),
        lead(flex, room) + prefix_sum(widenings(flex, n, room), i) <= room,
{
    lemma_widenings_upto(flex, n, room, i);
    if flex is SpaceBetween && n >= 2 {
        let q = room / (n - 1);
        let r = room % (n - 1);
        lemma_fundamental_div_mod(room, n - 1);
        lemma_mod_bound(room, n - 1);
        lemma_div_pos_is_pos(room, n - 1);
        assert(i * q <= (n - 1) * q) by (nonlinear_arith)
            requires
                0 <= i <= n - 1,
                0 <= q,
        ;
        assert(0 <= i * q) by (nonlinear_arith)
            requires
                0 <= i,
                0 <= q,
        ;
    }
}

/// The strides of the first `i` segments together: their lengths, as many
/// spacings, and the widenings of their gaps.
proof fn lemma_strides_upto(lens: Seq<int>, spacing: int, flex: Flex, room: int, i: int)
    requires
        0 <= i <= lens.len(),
    ensures
        prefix_sum(strides(lens, spacing, flex, room), i) == prefix_sum(lens, i) + i * spacing
            + prefix_sum(widenings(flex, lens.len() as int, room), i),
    decreases i,
{
    if i > 0 {
        lemma_strides_upto(lens, spacing, flex, room, i - 1);
        assert(i * spacing == (i - 1) * spacing + spacing) by (nonlinear_arith);
    } else {
        assert(0 * spacing == 0) by (nonlinear_arith);
    }
}

/// Every segment lies within the source.
pub proof fn lemma_segment_within(lens: Seq<int>, len: int, spacing: int, flex: Flex, i: int)
    requires
        0 <= len,
        0 <= spacing,
        non_negative(lens),
        total(lens) <= available(len, spacing, lens.len() as int),
        0 <= i < lens.len(),
    ensures
        0 <= offset(lens, len, spacing, flex, i),
        offset(lens, len, spacing, flex, i) + lens[i] <= len,
        gaps(spacing, lens.len() as int) <= len ==> offset(lens, len, spacing, flex, i) == lead(
            flex,
            slack(lens, available(len, spacing, lens.len() as int)),
        ) + prefix_sum(
            strides(lens, spacing, flex, slack(lens, available(len, spacing, lens.len() as int))),
            i,
        ),
{
    let n = lens.len() as int;
    let avail = available(len, spacing, n);
    let room = slack(lens, avail);
    lemma_slack_ahead(flex, n, room, i);
    lemma_strides_upto(lens, spacing, flex, room, i);
    lemma_prefix_sum_grows(lens, 0, i);
    lemma_prefix_sum_grows(lens, i + 1, n);
    assert(0 <= i * spacing) by (nonlinear_arith)
        requires
            0 <= i,
            0 <= spacing,
    ;
    if gaps(spacing, n) <= len {
        if n >= 2 {
            assert(i * spacing <= (n - 1) * spacing) by (nonlinear_arith)
                requires
                    0 <= i <= n - 1,
                    0 <= spacing,
            ;
            assert(spacing * (n - 1) == (n - 1) * spacing) by (nonlinear_arith);
        } else {
            assert(i * spacing == 0) by (nonlinear_arith)
                requires
                    i == 0,
            ;
        }
    } else {
        lemma_entry_at_most_sum(lens, i, n);
    }
}

/// The segments follow one another along the axis: each starts where the
/// one before it has ended, or further on, and `spacing` cells further on
/// where the source has room for the gaps.
pub proof fn lemma_segments_in_order(
    lens: Seq<int>,
    len: int,
    spacing: int,
    flex: Flex,
    i: int,
    j: int,
)
    requires
        0 <= len,
        0 <= spacing,
        non_negative(lens),
        total(lens) <= available(len, spacing, lens.len() as int),
        0 <= i < j < lens.len(),
    ensures
        offset(lens, len, spacing, flex, i) + lens[i] <= offset(lens, len, spacing, flex, j),
        gaps(spacing, lens.len() as int) <= len ==> offset(lens, len, spacing, flex, i) + lens[i]
            + spacing <= offset(lens, len, spacing, flex, j),
{
    let n = lens.len() as int;
    let room = slack(lens, available(len, spacing, n));
    let steps = strides(lens, spacing, flex, room);
    lemma_segment_within(lens, len, spacing, flex, i);
    lemma_segment_within(lens, len, spacing, flex, j);
    lemma_widenings_upto(flex, n, room, 0);
    assert forall|m: int| 0 <= m < n implies #[trigger] steps[m] >= 0 by {
        assert(widenings(flex, n, room)[m] >= 0);
    }
    lemma_prefix_sum_grows(steps, i + 1, j);
    lemma_prefix_sum_grows(steps, 0, i);
    assert(widenings(flex, n, room)[i] >= 0);
}

/// Packed against the start, and with room for the gaps, each segment
/// starts where the lengths and the spacings before it add up to.
pub proof fn lemma_packed_from_start(lens: Seq<int>, len: int, spacing: int, i: int)
    requires
        0 <= len,
        0 <= spacing,
        non_negative(lens),
        total(lens) <= available(len, spacing, lens.len() as int),
        gaps(spacing, lens.len() as int) <= len,
        0 <= i < lens.len(),
    ensures
        offset(lens, len, spacing, Flex::Start, i) == prefix_sum(lens, i) + i * spacing,
{
    let n = lens.len() as int;
    let room = slack(lens, available(len, spacing, n));
    lemma_segment_within(lens, len, spacing, Flex::Start, i);
    lemma_strides_upto(lens, spacing, Flex::Start, room, i);
    lemma_widenings_upto(Flex::Start, n, room, i);
}

} // verus!
