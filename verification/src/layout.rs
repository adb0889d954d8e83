//! The layout engine: partitions a rectangle among sizing constraints.
//!
//! The result holds one rectangle for each constraint, in the order of the
//! constraints. It is a function of the arguments alone: `partition` returns
//! exactly `partition_of`, whatever was computed before.

use vstd::prelude::*;
use crate::constraint::{all_valid, Constraint, Direction, Flex};
use crate::error::Error;
use crate::placement::{available, available_length, offset, offsets, segment_offsets};
use crate::rect::{coord_max, Rect};
use crate::sizing::{as_ints, lengths, segment_lengths, smaller};

verus! {

/// The coordinate at which `source` starts along the axis.
pub open spec fn axis_start(source: Rect, direction: Direction) -> int {
    match direction {
        Direction::Horizontal => source.x as int,
        Direction::Vertical => source.y as int,
    }
}

/// The cells that `rect` spans along the axis.
pub open spec fn axis_extent(rect: Rect, direction: Direction) -> int {
    match direction {
        Direction::Horizontal => rect.width as int,
        Direction::Vertical => rect.height as int,
    }
}

/// The first coordinate past `rect` along the axis.
pub open spec fn axis_end(rect: Rect, direction: Direction) -> int {
    axis_start(rect, direction) + axis_extent(rect, direction)
}

/// The cells of `source` along the axis, as far as their coordinates can be
/// represented.
pub open spec fn axis_length(source: Rect, direction: Direction) -> int {
    smaller(axis_extent(source, direction), coord_max() - axis_start(source, direction))
}

/// `rect` spans what `source` spans across the axis.
pub open spec fn same_across(rect: Rect, source: Rect, direction: Direction) -> bool {
    match direction {
        Direction::Horizontal => rect.y == source.y && rect.height == source.height,
        Direction::Vertical => rect.x == source.x && rect.width == source.width,
    }
}

/// The rectangle that spans `source` across the axis and, along it, starts
/// `off` cells into the source and is `len` cells long.
pub open spec fn segment(source: Rect, direction: Direction, off: int, len: int) -> Rect {
    match direction {
        Direction::Horizontal => Rect {
            x: (source.x + off) as u16,
            y: source.y,
            width: len as u16,
            height: source.height,
        },
        Direction::Vertical => Rect {
            x: source.x,
            y: (source.y + off) as u16,
            width: source.width,
            height: len as u16,
        },
    }
}

/// The lengths of the segments into which `source` is cut.
pub open spec fn segment_lengths_of(
    source: Rect,
    direction: Direction,
    cs: Seq<Constraint>,
    spacing: int,
) -> Seq<int> {
    let len = axis_length(source, direction);
    lengths(cs, len, available(len, spacing, cs.len() as int))
}

/// The partition of `source`: for each constraint the rectangle of its
/// segment.
pub open spec fn partition_of(
    source: Rect,
    direction: Direction,
    cs: Seq<Constraint>,
    spacing: int,
    flex: Flex,
) -> Seq<Rect> {
    let len = axis_length(source, direction);
    let lens = segment_lengths_of(source, direction, cs, spacing);
    Seq::new(
        cs.len(),
        |i: int| segment(source, direction, offset(lens, len, spacing, flex, i), lens[i]),
    )
}

/// The index of the first malformed constraint, if there is one.
pub fn first_invalid(constraints: &Vec<Constraint>) -> (found: Option<usize>)
    ensures
        match found {
            Some(i) => i < constraints.len() && !constraints[i as int].is_valid() && forall|j: int|
                0 <= j < i ==> (#[trigger] constraints[j]).is_valid(),
            None => all_valid(constraints@),
        },
{
    let mut i: usize = 0;
    while i < constraints.len()
        invariant
            i <= constraints.len(),
            forall|j: int| 0 <= j < i ==> (#[trigger] constraints[j]).is_valid(),
        decreases constraints.len() - i,
    {
        if !constraints[i].valid() {
            return Some(i);
        }
        i += 1;
    }
    None
}

/// Cuts `source` along `direction` into one rectangle for each constraint,
/// `spacing` cells apart, and places what is left over as `flex` says.
///
/// The list is refused where it holds a malformed constraint. Otherwise the
/// partition never fails: a source that is too short yields shorter
/// segments, down to none.
pub fn partition(
    source: Rect,
    direction: Direction,
    constraints: &Vec<Constraint>,
    spacing: u16,
    flex: Flex,
) -> (result: Result<Vec<Rect>, Error>)
    ensures
        match result {
            Ok(rects) => all_valid(constraints@) && rects@ =~= partition_of(
                source,
                direction,
                constraints@,
                spacing as int,
                flex,
            ),
            Err(e) => !all_valid(constraints@) && e == Error::InvalidConstraint,
        },
{
    if first_invalid(constraints).is_some() {
        return Err(Error::InvalidConstraint);
    }
    let n = constraints.len();
    let (start, extent) = match direction {
        Direction::Horizontal => (source.x, source.width),
        Direction::Vertical => (source.y, source.height),
    };
    let reach: u16 = u16::MAX - start;
    let len: u16 = if extent <= reach {
        extent
    } else {
        reach
    };
    let avail = available_length(len, spacing, n);
    let lens = segment_lengths(constraints, len, avail);
    let offs = segment_offsets(&lens, len, spacing, flex);
    let ghost want = partition_of(source, direction, constraints@, spacing as int, flex);
    let mut rects: Vec<Rect> = Vec::new();
    let mut i: usize = 0;
    while i < n
        invariant
            i <= n,
            n == constraints.len(),
            lens.len() == n,
            offs.len() == n,
            rects.len() == i,
            start as int == axis_start(source, direction),
            len as int == axis_length(source, direction),
            as_ints(lens@) =~= segment_lengths_of(source, direction, constraints@, spacing as int),
            as_ints(offs@) =~= offsets(as_ints(lens@), len as int, spacing as int, flex),
            want == partition_of(source, direction, constraints@, spacing as int, flex),
            forall|j: int| 0 <= j < i ==> rects[j] == want[j],
        decreases n - i,
    {
        assert(offs[i as int] as int == as_ints(offs@)[i as int]);
        let at: u16 = start + offs[i];
        let rect = match direction {
            Direction::Horizontal => Rect { x: at, y: source.y, width: lens[i], height: source.height },
            Direction::Vertical => Rect { x: source.x, y: at, width: source.width, height: lens[i] },
        };
        rects.push(rect);
        i += 1;
    }
    Ok(rects)
}

} // verus!
