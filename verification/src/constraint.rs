//! Sizing constraints and the two policies of a partition: its axis and the
//! way it places what is left over.

use vstd::prelude::*;
use crate::error::Error;

verus! {

/// How one segment of a partition asks to be sized.
#[derive(Debug, Clone, Copy, PartialEq, Eq, Structural)]
pub enum Constraint {
    /// Exactly this many cells.
    Fixed(u16),
    /// At least this many cells; takes up space that nothing else claims.
    Min(u16),
    /// At most this many cells.
    Max(u16),
    /// This many hundredths of the source, rounded to the nearest cell.
    Percentage(u16),
    /// The fraction `numerator / denominator` of the source, rounded down.
    Ratio(u32, u32),
    /// A share of the remaining space, in proportion to the weight.
    Fill(u16),
}

/// The axis along which a rectangle is cut.
#[derive(Debug, Clone, Copy, PartialEq, Eq, Structural)]
pub enum Direction {
    /// Segments lie side by side, left to right.
    Horizontal,
    /// Segments lie one below the other, top to bottom.
    Vertical,
}

/// Where the space goes that the segments leave unused.
#[derive(Debug, Clone, Copy, PartialEq, Eq, Structural)]
pub enum Flex {
    /// Segments pack against the origin; the slack trails.
    Start,
    /// Segments pack against the far edge; the slack leads.
    End,
    /// Half the slack leads, the other half trails.
    Center,
    /// The slack widens the gaps between segments.
    SpaceBetween,
}

impl Constraint {
    /// A percentage is at most one hundred and a ratio has a denominator.
    pub open spec fn is_valid(self) -> bool {
        match self {
            Constraint::Percentage(p) => p <= 100,
            Constraint::Ratio(_, den) => den != 0,
            _ => true,
        }
    }

    /// The length the constraint asks for along a source `len` cells long.
    /// A `Fill` asks for nothing of its own: it lives on what the others
    /// leave.
    pub open spec fn request(self, len: int) -> int {
        match self {
            Constraint::Fixed(n) => n as int,
            Constraint::Min(n) => n as int,
            Constraint::Max(n) => n as int,
            Constraint::Percentage(p) => (p * len + 50) / 100,
            Constraint::Ratio(num, den) => if den == 0 {
                0
            } else {
                (num * len) / (den as int)
            },
            Constraint::Fill(_) => 0,
        }
    }

    /// How firmly the constraint holds on to its request when the source is
    /// too short: a higher rank yields later. `Fill` yields first, then
    /// `Max`, `Min`, `Ratio`, `Percentage`, and `Fixed` last.
    pub open spec fn keep_rank(self) -> int {
        match self {
            Constraint::Fixed(_) => 5,
            Constraint::Percentage(_) => 4,
            Constraint::Ratio(_, _) => 3,
            Constraint::Min(_) => 2,
            Constraint::Max(_) => 1,
            Constraint::Fill(_) => 0,
        }
    }

    /// Whether the constraint is well formed.
    pub fn valid(&self) -> (b: bool)
        ensures
            b == self.is_valid(),
    {
        match *self {
            Constraint::Percentage(p) => p <= 100,
            Constraint::Ratio(_, den) => den != 0,
            _ => true,
        }
    }

    /// A `Percentage`, refused above one hundred.
    pub fn percentage(percent: u16) -> (r: Result<Constraint, Error>)
        ensures
            percent <= 100 ==> r == Ok::<Constraint, Error>(Constraint::Percentage(percent)),
            percent > 100 ==> r == Err::<Constraint, Error>(Error::InvalidConstraint),
    {
        if percent <= 100 {
            Ok(Constraint::Percentage(percent))
        } else {
            Err(Error::InvalidConstraint)
        }
    }

    /// A `Ratio`, refused over a zero denominator.
    pub fn ratio(numerator: u32, denominator: u32) -> (r: Result<Constraint, Error>)
        ensures
            denominator != 0 ==> r == Ok::<Constraint, Error>(
                Constraint::Ratio(numerator, denominator),
            ),
            denominator == 0 ==> r == Err::<Constraint, Error>(Error::InvalidConstraint),
    {
        if denominator != 0 {
            Ok(Constraint::Ratio(numerator, denominator))
        } else {
            Err(Error::InvalidConstraint)
        }
    }

    /// The length asked for along a source `len` cells long. A ratio over
    /// zero asks for nothing.
    pub fn requested(&self, len: u16) -> (r: u64)
        ensures
            r as int == self.request(len as int),
    {
        match *self {
            Constraint::Fixed(n) => n as u64,
            Constraint::Min(n) => n as u64,
            Constraint::Max(n) => n as u64,
            Constraint::Percentage(p) => {
                assert(p * len <= 0xffff * 0xffff) by (nonlinear_arith)
                    requires
                        p <= 0xffff,
                        len <= 0xffff,
                ;
                (p as u64 * len as u64 + 50) / 100
            },
            Constraint::Ratio(num, den) => {
                assert(num * len <= 0xffff_ffff * 0xffff) by (nonlinear_arith)
                    requires
                        num <= 0xffff_ffff,
                        len <= 0xffff,
                ;
                if den == 0 {
                    0
                } else {
                    (num as u64 * len as u64) / (den as u64)
                }
            },
            Constraint::Fill(_) => 0,
        }
    }

    /// The rank by which the constraint holds on to its request.
    pub fn rank(&self) -> (r: u8)
        ensures
            r as int == self.keep_rank(),
    {
        match *self {
            Constraint::Fixed(_) => 5,
            Constraint::Percentage(_) => 4,
            Constraint::Ratio(_, _) => 3,
            Constraint::Min(_) => 2,
            Constraint::Max(_) => 1,
            Constraint::Fill(_) => 0,
        }
    }
}

/// Every constraint of the list is well formed.
pub open spec fn all_valid(cs: Seq<Constraint>) -> bool {
    forall|i: int| 0 <= i < cs.len() ==> (#[trigger] cs[i]).is_valid()
}

} // verus!
