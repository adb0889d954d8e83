//! Where each segment of a partition starts.
//!
//! Segments follow one another along the axis, `spacing` cells apart. What
//! the segments and the gaps leave of the source is the slack, and the flex
//! policy says where it goes. No segment starts past the far edge of the
//! source, however wide the gaps are asked to be.

use vstd::prelude::*;
use vstd::arithmetic::div_mod::{lemma_basic_div, lemma_small_mod};
use crate::constraint::Flex;
use crate::sizing::{as_ints, at_least_zero, smaller};
use crate::sums::{prefix_sum, total};

verus! {

/// The cells that the gaps between `n` segments ask for.
pub open spec fn gaps(spacing: int, n: int) -> int {
    if n <= 1 {
        0
    } else {
        spacing * (n - 1)
    }
}

/// The cells of a source `len` long that are left for `n` segments once the
/// gaps are set aside.
pub open spec fn available(len: int, spacing: int, n: int) -> int {
    at_least_zero(len - gaps(spacing, n))
}

/// The cells that segments of these lengths leave unused of `avail`.
pub open spec fn slack(lens: Seq<int>, avail: int) -> int {
    at_least_zero(avail - total(lens))
}

/// The part of the slack that lies before the first segment.
pub open spec fn lead(flex: Flex, slack: int) -> int {
    match flex {
        Flex::Start => 0,
        Flex::SpaceBetween => 0,
        Flex::Center => slack / 2,
        Flex::End => slack,
    }
}

/// The cells by which the gap after segment `j` is widened. Only
/// `SpaceBetween` widens gaps: each by the same whole part of the slack, the
/// first ones by one cell more while the remainder lasts.
pub open spec fn widening(flex: Flex, n: int, slack: int, j: int) -> int {
    if flex is SpaceBetween && n >= 2 {
        slack / (n - 1) + if j < slack % (n - 1) {
            1int
        } else {
            0int
        }
    } else {
        0
    }
}

/// For each segment, the distance from its start to the start of the next:
/// its length, the spacing and the widening of the gap behind it.
pub open spec fn strides(lens: Seq<int>, spacing: int, flex: Flex, slack: int) -> Seq<int> {
    Seq::new(lens.len(), |j: int| lens[j] + spacing + widening(flex, lens.len() as int, slack, j))
}

/// The distance from the start of the source to the start of segment `i`.
pub open spec fn offset(lens: Seq<int>, len: int, spacing: int, flex: Flex, i: int) -> int {
    let room = slack(lens, available(len, spacing, lens.len() as int));
    smaller(len, lead(flex, room) + prefix_sum(strides(lens, spacing, flex, room), i))
}

/// The offsets of all segments.
pub open spec fn offsets(lens: Seq<int>, len: int, spacing: int, flex: Flex) -> Seq<int> {
    Seq::new(lens.len(), |i: int| offset(lens, len, spacing, flex, i))
}

/// The cells left for `n` segments of a source `len` long.
pub fn available_length(len: u16, spacing: u16, n: usize) -> (avail: u16)
    ensures
        avail as int == available(len as int, spacing as int, n as int),
{
    if n <= 1 || spacing == 0 {
        if spacing == 0 {
            assert(spacing * (n - 1) == 0) by (nonlinear_arith)
                requires
                    spacing == 0,
            ;
        }
        return len;
    }
    let between: usize = n - 1;
    if between > len as usize {
        assert(spacing * (n - 1) > len) by (nonlinear_arith)
            requires
                spacing >= 1,
                n - 1 > len,
        ;
        return 0;
    }
    assert(spacing * (n - 1) <= 0xffff * 0xffff) by (nonlinear_arith)
        requires
            spacing <= 0xffff,
            0 <= n - 1 <= 0xffff,
    ;
    let asked: u32 = spacing as u32 * between as u32;
    if asked >= len as u32 {
        0
    } else {
        (len as u32 - asked) as u16
    }
}

/// The whole part and the remainder of `slack` cells spread over the gaps
/// between `n` segments.
fn gap_parts(slack: u16, n: usize) -> (parts: (u16, u16))
    requires
        n >= 2,
    ensures
        parts.0 as int == slack as int / (n - 1),
        parts.1 as int == slack as int % (n - 1),
{
    let between: usize = n - 1;
    if between > slack as usize {
        proof {
            lemma_basic_div(slack as int, between as int);
            lemma_small_mod(slack as nat, between as nat);
        }
        (0, slack)
    } else {
        let b: u16 = between as u16;
        (slack / b, slack % b)
    }
}

/// The offset of every segment from the start of a source `len` cells long.
pub fn segment_offsets(lens: &Vec<u16>, len: u16, spacing: u16, flex: Flex) -> (out: Vec<u16>)
    ensures
        as_ints(out@) =~= offsets(as_ints(lens@), len as int, spacing as int, flex),
{
    let n = lens.len();
    let ghost ls = as_ints(lens@);
    let avail = available_length(len, spacing, n);
    // what the segments take of it, as far as it reaches
    let mut used: u16 = 0;
    let mut i: usize = 0;
    while i < n
        invariant
            i <= n,
            n == lens.len(),
            ls == as_ints(lens@),
            used as int == smaller(avail as int, prefix_sum(ls, i as int)),
            0 <= prefix_sum(ls, i as int),
        decreases n - i,
    {
        let sum: u32 = used as u32 + lens[i] as u32;
        used = if sum >= avail as u32 {
            avail
        } else {
            sum as u16
        };
        i += 1;
    }
    let room: u16 = avail - used;
    let first: u16 = match flex {
        Flex::Start => 0,
        Flex::SpaceBetween => 0,
        Flex::Center => room / 2,
        Flex::End => room,
    };
    let (whole, rest) = if matches!(flex, Flex::SpaceBetween) && n >= 2 {
        gap_parts(room, n)
    } else {
        (0, 0)
    };
    let ghost steps = strides(ls, spacing as int, flex, room as int);
    let mut out: Vec<u16> = Vec::new();
    let mut pos: u16 = first;
    i = 0;
    while i < n
        invariant
            i <= n,
            n == lens.len(),
            ls == as_ints(lens@),
            steps == strides(ls, spacing as int, flex, room as int),
            room as int == slack(ls, available(len as int, spacing as int, n as int)),
            room <= len,
            first as int == lead(flex, room as int),
            flex is SpaceBetween && n >= 2 ==> whole as int == room as int / (n - 1) && rest as int
                == room as int % (n - 1),
            !(flex is SpaceBetween && n >= 2) ==> whole == 0 && rest == 0,
            out.len() == i,
            pos as int == smaller(len as int, first + prefix_sum(steps, i as int)),
            0 <= prefix_sum(steps, i as int),
            forall|j: int|
                0 <= j < i ==> out[j] as int == offset(ls, len as int, spacing as int, flex, j),
        decreases n - i,
    {
        out.push(pos);
        let wider: u32 = if (i as u64) < (rest as u64) {
            whole as u32 + 1
        } else {
            whole as u32
        };
        let step: u32 = lens[i] as u32 + spacing as u32 + wider;
        let next: u32 = pos as u32 + step;
        pos = if next >= len as u32 {
            len
        } else {
            next as u16
        };
        i += 1;
    }
    out
}

} // verus!
